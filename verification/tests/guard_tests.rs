use ustbills::admin;
use ustbills::errors::BitcoinUSTBillsError;
use ustbills::guard::{
    add_to_list, assert_admin, assert_admin_or_caller, assert_caller_is, assert_user,
    clear_guard, delete_from_list, get_authorized_count, get_authorized_principals,
    get_initial_principal, has_authorized_principals, init_guard, is_admin, is_authorized,
    is_dev, validate_principal, Guard, INITIAL_AUTHORIZED_PRINCIPAL,
};
use ustbills::principal::Principal;

fn some_principal(last: u8) -> Principal {
    Principal::from_slice(&[0, 0, 0, 0, 0, 0, 0, last, 1, 1]).unwrap()
}

#[test]
fn test_initial_principal() {
    let guard = Guard::new();
    let initial = get_initial_principal();
    assert!(is_authorized(&guard, &initial));
}

#[test]
fn test_validate_principal() {
    let anonymous = Principal::anonymous();
    assert!(validate_principal(&anonymous).is_err());

    let valid = get_initial_principal();
    assert!(validate_principal(&valid).is_ok());
}

#[test]
fn a_text_with_a_wrong_check_sequence_is_no_principal() {
    // The check sequence of this text does not match its bytes.
    assert_eq!(Principal::from_text("rdmx6-jaaaa-aaaah-qcaiq-cai"), None);
}

#[test]
fn add_and_remove_principal() {
    let mut guard = Guard::new();
    let test_principal = Principal::from_text("rdmx6-jaaaa-aaaaa-aaadq-cai").unwrap();

    // Initially should not be authorized
    assert!(!is_authorized(&guard, &test_principal));

    // Add to list
    add_to_list(&mut guard, test_principal.clone());
    assert!(is_authorized(&guard, &test_principal));

    // Remove from list
    delete_from_list(&mut guard, test_principal.clone());
    assert!(!is_authorized(&guard, &test_principal));
}

#[test]
fn the_initial_principal_is_what_its_text_denotes() {
    let parsed = Principal::from_text(INITIAL_AUTHORIZED_PRINCIPAL).unwrap();
    assert_eq!(parsed, get_initial_principal());
    assert_eq!(get_initial_principal().to_text(), INITIAL_AUTHORIZED_PRINCIPAL);
    assert_eq!(get_initial_principal().as_slice().len(), 29);
}

#[test]
fn principals_are_read_from_text_and_written_back() {
    assert_eq!(Principal::from_text("2vxsx-fae"), Some(Principal::anonymous()));
    assert_eq!(Principal::anonymous().to_text(), "2vxsx-fae");
    assert_eq!(Principal::from_text("aaaaa-aa").unwrap().as_slice(), &[] as &[u8]);
    let ledger = Principal::from_text("ryjl3-tyaaa-aaaaa-aaaba-cai").unwrap();
    assert_eq!(ledger.as_slice(), &[0, 0, 0, 0, 0, 0, 0, 2, 1, 1]);
    assert_eq!(ledger.to_text(), "ryjl3-tyaaa-aaaaa-aaaba-cai");
    assert_eq!(Principal::from_text("not a principal"), None);
    assert_eq!(Principal::from_text(""), None);
}

#[test]
fn principals_hold_at_most_29_bytes() {
    assert!(Principal::from_slice(&[7u8; 29]).is_some());
    assert!(Principal::from_slice(&[7u8; 30]).is_none());
    assert!(Principal::from_slice(&[]).is_some());
    assert!(Principal::anonymous().is_anonymous());
    assert!(!some_principal(4).is_anonymous());
    assert!(some_principal(4).equals(&some_principal(4)));
    assert!(!some_principal(4).equals(&some_principal(5)));
    assert_eq!(some_principal(9).clone(), some_principal(9));
}

#[test]
fn the_authorized_are_listed_in_ascending_order_without_repeats() {
    let mut guard = Guard::empty();
    assert!(!has_authorized_principals(&guard));
    add_to_list(&mut guard, some_principal(9));
    add_to_list(&mut guard, Principal::from_slice(&[200, 1]).unwrap());
    add_to_list(&mut guard, some_principal(3));
    add_to_list(&mut guard, some_principal(9));
    add_to_list(&mut guard, Principal::from_slice(&[1, 2, 3]).unwrap());
    add_to_list(&mut guard, get_initial_principal());
    assert_eq!(get_authorized_count(&guard), 5);
    assert!(has_authorized_principals(&guard));
    assert_eq!(
        get_authorized_principals(&guard),
        vec![
            Principal::from_slice(&[200, 1]).unwrap(),
            Principal::from_slice(&[1, 2, 3]).unwrap(),
            some_principal(3),
            some_principal(9),
            get_initial_principal(),
        ]
    );
}

#[test]
fn order_of_principals_is_that_of_candid() {
    let mut guard = Guard::empty();
    let texts = [
        "ryjl3-tyaaa-aaaaa-aaaba-cai",
        "2vxsx-fae",
        "rdmx6-jaaaa-aaaaa-aaadq-cai",
        "aaaaa-aa",
        INITIAL_AUTHORIZED_PRINCIPAL,
    ];
    let mut expected: Vec<candid::Principal> = Vec::new();
    for text in texts {
        add_to_list(&mut guard, Principal::from_text(text).unwrap());
        expected.push(candid::Principal::from_text(text).unwrap());
    }
    expected.sort();
    let listed: Vec<Vec<u8>> =
        get_authorized_principals(&guard).iter().map(|p| p.as_slice().to_vec()).collect();
    let sorted: Vec<Vec<u8>> = expected.iter().map(|p| p.as_slice().to_vec()).collect();
    assert_eq!(listed, sorted);
}

#[test]
fn removal_says_whether_the_principal_was_listed() {
    let mut guard = Guard::new();
    assert_eq!(
        delete_from_list(&mut guard, some_principal(1)),
        "Principal {} is not in the guard list"
    );
    assert_eq!(get_authorized_count(&guard), 1);
    assert_eq!(delete_from_list(&mut guard, get_initial_principal()), "removed");
    assert_eq!(get_authorized_count(&guard), 0);
}

#[test]
fn developers_are_authorized_and_not_anonymous() {
    let guard = Guard::new();
    assert_eq!(is_dev(&guard, &get_initial_principal()), Ok(()));
    assert_eq!(is_admin(&guard, &get_initial_principal()), Ok(()));
    assert_eq!(is_dev(&guard, &Principal::anonymous()), Err("AnonymousCaller".to_string()));
    assert_eq!(
        is_admin(&guard, &Principal::from_text("ryjl3-tyaaa-aaaaa-aaaba-cai").unwrap()),
        Err("Caller ryjl3-tyaaa-aaaaa-aaaba-cai is not authorized".to_string())
    );
}

#[test]
fn administrators_are_told_from_other_callers() {
    let mut guard = Guard::new();
    let admin = get_initial_principal();
    let other = some_principal(7);
    assert_eq!(assert_admin(&guard, &admin), Ok(()));
    assert_eq!(assert_admin(&guard, &other), Err(BitcoinUSTBillsError::Unauthorized));
    assert_eq!(
        assert_admin(&guard, &Principal::anonymous()),
        Err(BitcoinUSTBillsError::AnonymousCaller)
    );
    assert_eq!(init_guard(&mut guard, Principal::anonymous()), Ok(()));
    assert_eq!(
        assert_admin(&guard, &Principal::anonymous()),
        Err(BitcoinUSTBillsError::AnonymousCaller)
    );
    assert_eq!(assert_user(&other), Ok(()));
    assert_eq!(assert_user(&Principal::anonymous()), Err(BitcoinUSTBillsError::AnonymousCaller));
    assert_eq!(assert_caller_is(&other, &other), Ok(()));
    assert_eq!(assert_caller_is(&other, &admin), Err(BitcoinUSTBillsError::Unauthorized));
    assert_eq!(assert_admin_or_caller(&guard, &admin, &other), Ok(()));
    assert_eq!(assert_admin_or_caller(&guard, &other, &other), Ok(()));
    assert_eq!(
        assert_admin_or_caller(&guard, &other, &admin),
        Err(BitcoinUSTBillsError::Unauthorized)
    );
}

#[test]
fn only_an_administrator_clears_the_guard() {
    let mut guard = Guard::new();
    assert_eq!(clear_guard(&mut guard, &some_principal(7)), Err(BitcoinUSTBillsError::Unauthorized));
    assert_eq!(get_authorized_count(&guard), 1);
    assert_eq!(clear_guard(&mut guard, &get_initial_principal()), Ok(()));
    assert_eq!(get_authorized_count(&guard), 0);
    assert_eq!(
        clear_guard(&mut guard, &get_initial_principal()),
        Err(BitcoinUSTBillsError::Unauthorized)
    );
}

#[test]
fn only_an_administrator_adds_to_the_list() {
    let mut guard = Guard::new();
    let admin = get_initial_principal();
    let other = some_principal(7);
    assert_eq!(
        admin::add_to_list(&mut guard, &other, other.clone()),
        Err(BitcoinUSTBillsError::Unauthorized)
    );
    assert!(!is_authorized(&guard, &other));
    assert_eq!(admin::add_to_list(&mut guard, &admin, other.clone()), Ok(()));
    assert!(is_authorized(&guard, &other));
    assert_eq!(admin::test_func(&guard, &other), Ok("test_func with admin guard".to_string()));
    assert_eq!(
        admin::test_func(&guard, &Principal::anonymous()),
        Err(BitcoinUSTBillsError::AnonymousCaller)
    );
}
