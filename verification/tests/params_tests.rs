//! Accessors and event descriptions.
use predikit::builtin::{cd_all, cd_file_exists};
use predikit::events::desc_from_instances;
use predikit::instance::ChkInstanceBuilder;
use predikit::params::{ChkActualParam, ContentAddress};

#[test]
fn foo() {}

#[test]
fn test_chk_param_instance_force_to_string() {}

// Typed accessors hand back exactly what the constructors took.
#[test]
fn typed_accessors_round_trip() {
    let ca = ContentAddress::new(3, 9);
    let p = ChkActualParam::new_int("n".to_string(), 42, ca);
    assert_eq!(p.get_int(), 42);
    assert_eq!(p.name, "n".to_string());
    assert_eq!(p.content_address, ca);

    let q = ChkActualParam::new_string("s".to_string(), "hi".to_string(), ca);
    assert_eq!(q.get_string(), "hi");

    let b = ChkActualParam::new_bool("b".to_string(), false, ca);
    assert_eq!(b.get_bool(), false);

    let path = ChkActualParam::new_path("p".to_string(), "/tmp/x".to_string(), ca);
    assert_eq!(path.get_raw_path(), "/tmp/x");
}

// The description map carries one entry per instance, keyed by id, with the
// function name, the children's ids and the flags.
#[test]
fn descriptions_cover_the_tree() {
    let fe = cd_file_exists();
    let all = cd_all();
    let child = ChkInstanceBuilder::new(&fe)
        .param_string("path", "somewhere")
        .instance_id(1000)
        .build();
    let group = ChkInstanceBuilder::new(&all)
        .add_child(child)
        .instance_id(1001)
        .negated(true)
        .build();
    let m = desc_from_instances(&vec![group]);
    assert_eq!(m.len(), 2);
    let d_child = m.get(&1000).unwrap();
    assert_eq!(d_child.fn_desc.fn_name, "exists?".to_string());
    assert!(!d_child.is_root);
    assert!(d_child.children.is_empty());
    let d_group = m.get(&1001).unwrap();
    assert_eq!(d_group.fn_desc.fn_name, "all".to_string());
    assert!(d_group.is_root);
    assert!(d_group.negated);
    assert_eq!(d_group.children, vec![1000]);
    assert!(d_group.result.is_none());
}
