//! The building blocks: arithmetic, tables, roles, encodings, errors, events.
use astroid::access::{
    clear_role, effective_role, granted_role, require_role, set_role, Role, Roles,
};
use astroid::encoding::{push_address_xdr, push_be, push_bytes32};
use astroid::errors::Error;
use astroid::events::{ContractEvent, Event};
use astroid::host::{CallEnv, Effect};
use astroid::math::{checked_div, mul_div, next_id, SafeAdd, SafeDiv, SafeMul, SafeSub};
use astroid::table::Table;
use astroid::types::{Address, AddressKind, Bytes32};
use astroid::validation::require_non_empty;

fn account(n: u128) -> Address {
    Address {
        kind: AddressKind::Account,
        key: Bytes32 { hi: 0, lo: n },
    }
}

#[test]
fn safe_operations_report_their_own_errors() {
    assert_eq!(2i128.safe_add(3), Ok(5));
    assert_eq!(i128::MAX.safe_add(1), Err(Error::MathOverflow));
    assert_eq!(2i128.safe_sub(3), Ok(-1));
    assert_eq!(i128::MIN.safe_sub(1), Err(Error::Underflow));
    assert_eq!((-4i128).safe_mul(3), Ok(-12));
    assert_eq!(i128::MAX.safe_mul(2), Err(Error::MathOverflow));
    assert_eq!((-7i128).safe_div(2), Ok(-3));
    assert_eq!(1i128.safe_div(0), Err(Error::DivisionByZero));
    assert_eq!(i128::MIN.safe_div(-1), Err(Error::MathOverflow));
}

#[test]
fn division_rounds_toward_zero() {
    assert_eq!(checked_div(7, -2), Ok(-3));
    assert_eq!(checked_div(i128::MIN, -1), Err(Error::Overflow));
}

#[test]
fn shares_do_not_overflow_on_the_way() {
    assert_eq!(mul_div(10_000, 500, 1_000), 5_000);
    assert_eq!(mul_div(1_000, 1, 3), 333);
    assert_eq!(mul_div(i128::MAX, u64::MAX, u64::MAX), i128::MAX);
    assert_eq!(mul_div(i128::MAX, 1, 2), i128::MAX / 2);
    assert_eq!(mul_div(0, 5, 9), 0);
}

#[test]
fn identifiers_count_up_and_run_out() {
    assert_eq!(next_id(0), Ok(1));
    assert_eq!(next_id(u64::MAX - 1), Ok(u64::MAX));
    assert_eq!(next_id(u64::MAX), Err(Error::Overflow));
}

#[test]
fn empty_text_is_refused() {
    assert_eq!(require_non_empty(&String::new()), Err(Error::InvalidInput));
    assert_eq!(require_non_empty(&"x".to_string()), Ok(()));
}

#[test]
fn table_keeps_the_last_value_of_a_key() {
    let mut t: Table<String, u32> = Table::new();
    let (a, b) = ("a".to_string(), "b".to_string());
    t.set(a.clone(), 1);
    t.set(b.clone(), 2);
    t.set(a.clone(), 3);
    assert_eq!(t.get(&a), Some(&3));
    assert_eq!(t.take(&a), Some(3));
    assert!(!t.has(&a));
    assert_eq!(t.take(&a), None);
    assert_eq!(t.get(&b), Some(&2));
    t.remove(&b);
    assert_eq!(t.get(&b), None);
}

#[test]
fn roles_are_ordered_and_the_owner_is_admin() {
    assert!(Role::Admin.satisfies(Role::Agent) && Role::Agent.satisfies(Role::Auditor));
    assert!(!Role::Agent.satisfies(Role::Admin) && !Role::Auditor.satisfies(Role::Agent));
    let mut roles: Roles = Table::new();
    let (owner, agent) = (account(1), account(2));
    set_role(&mut roles, 7, &agent, Role::Agent);
    assert_eq!(granted_role(&roles, 7, &agent), Some(Role::Agent));
    assert_eq!(granted_role(&roles, 8, &agent), None);
    assert_eq!(
        effective_role(&roles, 7, &owner, &owner),
        Some(Role::Admin)
    );
    assert_eq!(require_role(&roles, 7, &owner, &agent, Role::Agent), Ok(()));
    assert_eq!(
        require_role(&roles, 7, &owner, &agent, Role::Admin),
        Err(Error::Unauthorized)
    );
    assert_eq!(clear_role(&mut roles, 7, &agent), Ok(()));
    assert_eq!(clear_role(&mut roles, 7, &agent), Err(Error::NotFound));
    assert_eq!(effective_role(&roles, 7, &owner, &agent), None);
}

#[test]
fn integers_and_keys_are_big_endian() {
    let mut out = vec![9];
    push_be(&mut out, 0x0102, 4);
    assert_eq!(out, vec![9, 0, 0, 1, 2]);
    let mut key = Vec::new();
    push_bytes32(&mut key, &Bytes32 { hi: 1, lo: 255 });
    assert_eq!(key.len(), 32);
    assert_eq!((key[15], key[31]), (1, 255));
}

#[test]
fn addresses_are_tagged_by_kind() {
    let mut a = Vec::new();
    push_address_xdr(&mut a, &account(5));
    assert_eq!(a[..12], [0, 0, 0, 18, 0, 0, 0, 0, 0, 0, 0, 0]);
    assert_eq!(a.len(), 44);
    let mut c = Vec::new();
    let contract = Address {
        kind: AddressKind::Contract,
        ..account(5)
    };
    push_address_xdr(&mut c, &contract);
    assert_eq!(c[..8], [0, 0, 0, 18, 0, 0, 0, 1]);
    assert_eq!(c.len(), 40);
}

#[test]
fn error_codes_are_stable() {
    let codes = [
        (Error::NotFound, 1),
        (Error::Unauthorized, 3),
        (Error::Underflow, 13),
        (Error::MathOverflow, 14),
        (Error::PolicyDenied, 20),
        (Error::RegistryFrozen, 30),
        (Error::BudgetExpired, 44),
        (Error::ReserveViolation, 55),
        (Error::TimelockNotExpired, 91),
        (Error::CircularDependencyDetected, 79),
        (Error::AllowanceExpired, 89),
    ];
    for (error, code) in codes {
        assert_eq!(error.code(), code);
        assert_eq!(Error::from_code(code), Some(error));
    }
    assert_eq!(Error::from_code(0), None);
    assert_eq!(Error::from_code(60), None);
}

#[test]
fn events_have_their_topics() {
    let who = account(1);
    assert_eq!(
        Event::TransferExecuted {
            from: who,
            to: who,
            asset: who,
            amount: 1
        }
        .topics(),
        vec!["transfer", "executed"]
    );
    assert_eq!(
        Event::Contract(ContractEvent::WalletCreated {
            wallet_id: 1,
            owner: who
        })
        .topics(),
        vec!["WalletCreated"]
    );
    assert_eq!(
        Event::WalletState {
            wallet_id: 1,
            action: "archived"
        }
        .topics(),
        vec!["wallet", "archived"]
    );
}

#[test]
fn effects_are_recorded_in_order() {
    let contract = Address {
        kind: AddressKind::Contract,
        ..account(9)
    };
    let mut env = CallEnv::new(5, 6, contract, Bytes32 { hi: 0, lo: 0 });
    env.require_auth(account(1));
    env.transfer(account(2), account(1), contract, 40);
    assert_eq!(env.log.len(), 2);
    assert!(matches!(env.log[0], Effect::RequireAuth(who) if who == account(1)));
    assert!(matches!(
        env.log[1],
        Effect::Transfer { asset, from, to, amount: 40 }
            if asset == account(2) && from == account(1) && to == contract
    ));
}
