use md2htm::{Linkdata, Linkstatus, WtiteTo, MDS};

#[test]
fn write_appends_in_order() {
    let mut v: Vec<u8> = vec![1, 2];
    v.write(&[3, 4, 5]);
    assert_eq!(v, vec![1, 2, 3, 4, 5]);
    v.write(&[]);
    assert_eq!(v, vec![1, 2, 3, 4, 5]);
}

#[test]
fn link_status_predicates() {
    assert!(Linkstatus::Alt(0).is_alt());
    assert!(!Linkstatus::Link.is_alt());
    assert!(Linkstatus::Link.is_link());
    assert!(Linkstatus::Alt(0).alt_expects_closure());
    assert!(!Linkstatus::Alt(1).alt_expects_closure());
    assert!(Linkstatus::Alt(1).alt_expects_url());
    assert!(!Linkstatus::Alt(0).alt_expects_url());
    assert!(!Linkstatus::Link.alt_expects_url());
}

#[test]
fn link_data_predicates() {
    let mut l = Linkdata::new();
    assert!(l.is_alt());
    assert!(l.alt_expects_closure());
    assert!(!l.is_link());
    l.status = Linkstatus::Alt(1);
    assert!(l.alt_expects_url());
    l.status = Linkstatus::Link;
    assert!(l.is_link());
    assert!(!l.is_alt());
}

#[test]
fn fresh_translator_has_nothing_open() {
    let m = MDS::new();
    assert!(m.is_none());
    assert!(!m.is_paragraph());
    assert!(!m.is_ulist());
    assert!(!m.is_intend());
}
