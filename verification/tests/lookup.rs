use retour_utils::lookup::{nul_terminated, AddressRequest, LookupData};

#[test]
fn from_offset_names_its_module() {
    let l = LookupData::from_offset("foo.dll", 0x1234);
    assert_eq!(l.get_module(), Some("foo.dll"));
    match l.address_from_handle(0x1000) {
        Some(AddressRequest::Address(a)) => assert_eq!(a, 0x2234),
        _ => panic!("expected an address"),
    }
}

#[test]
fn from_symbol_names_its_module() {
    let l = LookupData::from_symbol("lua52.dll", "lua_newstate");
    assert_eq!(l.get_module(), Some("lua52.dll"));
    match l.address_from_handle(0x1000) {
        Some(AddressRequest::Symbol(s)) => assert_eq!(s, "lua_newstate\0"),
        _ => panic!("expected a symbol"),
    }
}

#[test]
fn self_lookups_name_no_module() {
    let a = LookupData::from_self_offset(0x10);
    let b = LookupData::from_self_symbol("main");
    assert_eq!(a.get_module(), None);
    assert_eq!(b.get_module(), None);
    match a.address_from_handle(0x400000) {
        Some(AddressRequest::Address(x)) => assert_eq!(x, 0x400010),
        _ => panic!("expected an address"),
    }
    match b.address_from_handle(0) {
        Some(AddressRequest::Symbol(s)) => assert_eq!(s, "main\0"),
        _ => panic!("expected a symbol"),
    }
}

#[test]
fn symbol_with_nul_is_refused() {
    let l = LookupData::from_symbol("x.dll", "bad\0name");
    assert!(l.address_from_handle(0).is_none());
    assert!(nul_terminated("a\0b").is_none());
    assert_eq!(nul_terminated(""), Some(String::from("\0")));
}
