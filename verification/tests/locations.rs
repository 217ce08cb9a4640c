use why3_ptree::debug::{register_flag, test_flag, FlagTable};
use why3_ptree::doc::Doc;
use why3_ptree::lists;
use why3_ptree::loc::{
    self, get, register_warning, user_position, user_position_warning, warning, warning_active,
    FileTags, Position, Warnings,
};
use why3_ptree::mlw_printer::{id_loc, is_id_loc, parse_ids, IdLocs};

#[test]
fn position_round_trip() {
    let mut tags = FileTags::new();
    let p = user_position(&mut tags, "f.mlw", 3, 4, 5, 6);
    let (f, bl, bc, el, ec) = get(&tags, p);
    assert_eq!(f, "f.mlw");
    assert_eq!((bl, bc, el, ec), (3, 4, 5, 6));
    assert!(loc::equal(p, p));
    assert!(!loc::equal(p, Position::default()));
}

#[test]
fn dummy_position() {
    let tags = FileTags::new();
    let (f, bl, bc, el, ec) = get(&tags, Position::default());
    assert_eq!(f, "");
    assert_eq!((bl, bc, el, ec), (0, 0, 0, 0));
    assert_eq!(Position::default(), Position::dummy());
}

#[test]
fn file_tags_are_stable() {
    let mut tags = FileTags::new();
    assert_eq!(tags.get_file_tag(""), 0);
    let a = tags.get_file_tag("a.mlw");
    let b = tags.get_file_tag("b.mlw");
    assert_eq!(a, 1);
    assert_eq!(b, 2);
    assert_eq!(tags.get_file_tag("a.mlw"), a);
    assert_eq!(tags.tag_to_file(b), "b.mlw");
    assert_eq!(tags.name_of_tag(17), "");
}

#[test]
fn unique_dummy_locations() {
    let mut tags = FileTags::new();
    let mut ids = IdLocs::new();
    let p1 = id_loc(&mut ids, &mut tags);
    let p2 = id_loc(&mut ids, &mut tags);
    assert_ne!(p1, p2);
    assert_eq!(get(&tags, p1), ("".to_string(), 1, 0, 1, 0));
    assert_eq!(get(&tags, p2), ("".to_string(), 2, 0, 2, 0));
    assert!(is_id_loc(&tags, p1));
    let q = user_position(&mut tags, "f.mlw", 1, 0, 1, 0);
    assert!(!is_id_loc(&tags, q));
}

#[test]
fn warnings_are_given_once() {
    let mut w = Warnings::new();
    assert!(user_position_warning(&mut w, 10, 20).is_none());
    let d = user_position_warning(&mut w, 1 << 20, 0);
    assert!(d.is_some());
    // only the first overflow is reported
    assert!(user_position_warning(&mut w, 1 << 20, 1 << 20).is_none());
    assert!(warning_active(&w, "start_overflow"));
}

#[test]
fn registered_warnings() {
    let mut w = Warnings::new();
    let id = register_warning(&mut w, "w1", Doc::new());
    assert_eq!(id, "w1");
    register_warning(&mut w, "w1", Doc::new());
    assert!(warning_active(&w, "w1"));
    let mut msg = Doc::new();
    msg.atom("hello");
    let r = warning(&w, "w1", Some(Position::default()), msg);
    let (l, d) = r.unwrap();
    assert_eq!(l, Some(Position::default()));
    assert_eq!(d.items.len(), 1);
}

#[test]
fn flags_start_unset() {
    let mut t = FlagTable::new();
    let f = register_flag(&mut t, "print_ids", Doc::new());
    let g = register_flag(&mut t, "print_ids", Doc::new());
    assert_eq!(f, g);
    assert_eq!(f.flag_name(), "print_ids");
    assert!(!test_flag(f));
}

#[test]
fn lists_equal() {
    let a = [1, 2, 3];
    let b = [1, 2, 3];
    let c = [1, 2];
    let d = [1, 5, 3];
    assert!(lists::equal(|x: &i32, y: &i32| x == y, &a, &b));
    assert!(!lists::equal(|x: &i32, y: &i32| x == y, &a, &c));
    assert!(!lists::equal(|x: &i32, y: &i32| x == y, &a, &d));
    assert!(lists::equal(|x: &i32, y: &&str| y.len() == *x as usize, &c, &["a", "bb"]));
}

#[test]
fn identifiers_from_text() {
    assert_eq!(parse_ids("1,2,30"), Some(vec![1, 2, 30]));
    assert_eq!(parse_ids("-4,+5"), Some(vec![-4, 5]));
    assert_eq!(parse_ids("007"), Some(vec![7]));
    assert_eq!(parse_ids(""), None);
    assert_eq!(parse_ids("1,,2"), None);
    assert_eq!(parse_ids("1, 2"), None);
    assert_eq!(parse_ids("x"), None);
    assert_eq!(parse_ids("-"), None);
    assert_eq!(parse_ids("99999999999999999999999"), None);
    assert_eq!(parse_ids(&isize::MIN.to_string()), Some(vec![isize::MIN]));
    assert_eq!(parse_ids(&isize::MAX.to_string()), Some(vec![isize::MAX]));
}

#[test]
fn largest_end_column_fits() {
    let largest: isize = if usize::BITS == 32 { 4095 } else { 65535 };
    let mut w = Warnings::new();
    assert!(user_position_warning(&mut w, largest, largest).is_none());
    assert!(user_position_warning(&mut w, 0, largest + 1).is_some());
    let mut tags = FileTags::new();
    let p = user_position(&mut tags, "f.mlw", 1, largest, 2, largest);
    assert_eq!(get(&tags, p), ("f.mlw".to_string(), 1, largest, 2, largest));
}

#[test]
fn flag_registered_twice() {
    let mut t = FlagTable::new();
    register_flag(&mut t, "a", Doc::new());
    let f1 = register_flag(&mut t, "b", Doc::new());
    register_flag(&mut t, "c", Doc::new());
    let f2 = register_flag(&mut t, "b", Doc::new());
    assert_eq!(f1, f2);
    assert!(!test_flag(f1) && !test_flag(f2));
    t.check_invariant();
}
