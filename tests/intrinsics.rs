use frawk_rt::catalog::{register, Declaration, MachineType, Signature};
use frawk_rt::convert::{int_to_str, str_to_int};
use frawk_rt::maps::{
    alloc_intfloat, alloc_intint, alloc_intstr, alloc_strint, alloc_strstr, contains_intint,
    contains_strint, delete_intint, delete_strint, drop_map, insert_intfloat, insert_intint,
    insert_strint, len_intint, len_strint, lookup_intfloat, lookup_intint, lookup_intstr,
    lookup_strint, lookup_strstr, ref_map, MapKind,
};
use frawk_rt::runtime::{
    get_col, load_var_int, load_var_intmap, load_var_str, match_pat, set_col, split_int,
    split_str, try_match_pat, try_split_int, store_var_int, store_var_intmap, store_var_str, Runtime, ARGC, ARGV, FS, NF, NR,
    OFS, RS,
};
use frawk_rt::strings::{
    drop_str, ref_str, str_eq, str_gt, str_gte, str_len, str_lt, str_lte, Str,
};

fn s(b: &str) -> Str {
    Str::from_bytes(b.as_bytes())
}

fn text(v: &Str) -> String {
    String::from_utf8(v.as_bytes().to_vec()).unwrap()
}

#[test]
fn field_read() {
    let mut rt = Runtime::new();
    store_var_str(&mut rt, FS, &s(" "));
    assert!(set_col(&mut rt, 0, &s("a b c")));
    assert_eq!(text(&get_col(&mut rt, 2).unwrap()), "b");
    assert_eq!(load_var_int(&mut rt, NF), Some(3));
}

#[test]
fn field_write_extends() {
    let mut rt = Runtime::new();
    assert!(set_col(&mut rt, 3, &s("x")));
    assert_eq!(text(&get_col(&mut rt, 1).unwrap()), "");
    assert_eq!(text(&get_col(&mut rt, 2).unwrap()), "");
    assert_eq!(text(&get_col(&mut rt, 3).unwrap()), "x");
}

#[test]
fn split_counts() {
    let mut rt = Runtime::new();
    let m = alloc_strstr(&mut rt.maps);
    assert_eq!(split_str(&mut rt, &s("1,2,,3"), m, &s(",")), 4);
    let got: Vec<String> = ["1", "2", "3", "4"]
        .iter()
        .map(|k| text(&lookup_strstr(&rt.maps, m, &s(k))))
        .collect();
    assert_eq!(got, vec!["1", "2", "", "3"]);
}

#[test]
fn map_default() {
    let mut rt = Runtime::new();
    let m = alloc_intint(&mut rt.maps);
    assert_eq!(lookup_intint(&rt.maps, m, 42), 0);
    assert_eq!(len_intint(&rt.maps, m), 0);
}

#[test]
fn refcount_single_drop() {
    let seven = int_to_str(7);
    assert_eq!(text(&seven), "7");
    let again = ref_str(&seven);
    assert_eq!(str_eq(&seven, &again), 1);
    drop_str(again);
    drop_str(seven);
}

#[test]
fn regex_cache_reuse() {
    let mut rt = Runtime::new();
    assert_eq!(rt.regexes.compiled_count(), 0);
    assert_eq!(match_pat(&mut rt, &s("xaab"), &s("a+b")), 1);
    assert_eq!(rt.regexes.compiled_count(), 1);
    assert_eq!(match_pat(&mut rt, &s("xyz"), &s("a+b")), 0);
    assert_eq!(rt.regexes.compiled_count(), 1);
}

#[test]
fn invalid_pattern_is_reported() {
    let mut rt = Runtime::new();
    assert_eq!(try_match_pat(&mut rt, &s("abc"), &s("(")), None);
    assert_eq!(try_match_pat(&mut rt, &s("abc"), &s("b")), Some(1));
    assert_eq!(rt.regexes.compiled_count(), 1);
}

#[test]
fn map_ref_then_drop_balances() {
    let mut rt = Runtime::new();
    let m = alloc_intstr(&mut rt.maps);
    assert_eq!(rt.maps.ref_count(m), 1);
    ref_map(&mut rt.maps, m);
    assert_eq!(rt.maps.ref_count(m), 2);
    drop_map(&mut rt.maps, m);
    assert_eq!(rt.maps.ref_count(m), 1);
    assert_eq!(rt.maps.kind_of(m), Some(MapKind::IntStr));
    drop_map(&mut rt.maps, m);
    assert_eq!(rt.maps.ref_count(m), 0);
    assert_eq!(rt.maps.kind_of(m), None);
}

#[test]
fn contains_follows_insert_and_delete() {
    let mut rt = Runtime::new();
    let m = alloc_intint(&mut rt.maps);
    assert_eq!(contains_intint(&rt.maps, m, 5), 0);
    insert_intint(&mut rt.maps, m, 5, 50);
    assert_eq!(contains_intint(&rt.maps, m, 5), 1);
    insert_intint(&mut rt.maps, m, 5, 51);
    assert_eq!(lookup_intint(&rt.maps, m, 5), 51);
    assert_eq!(len_intint(&rt.maps, m), 1);
    delete_intint(&mut rt.maps, m, 5);
    assert_eq!(contains_intint(&rt.maps, m, 5), 0);
    delete_intint(&mut rt.maps, m, 5);
    assert_eq!(len_intint(&rt.maps, m), 0);

    let sm = alloc_strint(&mut rt.maps);
    insert_strint(&mut rt.maps, sm, &s("a"), 1);
    insert_strint(&mut rt.maps, sm, &s("b"), 2);
    assert_eq!(contains_strint(&rt.maps, sm, &s("a")), 1);
    delete_strint(&mut rt.maps, sm, &s("a"));
    assert_eq!(contains_strint(&rt.maps, sm, &s("a")), 0);
    assert_eq!(lookup_strint(&rt.maps, sm, &s("b")), 2);
    assert_eq!(len_strint(&rt.maps, sm), 1);
}

#[test]
fn missing_lookup_keeps_length() {
    let mut rt = Runtime::new();
    let m = alloc_strint(&mut rt.maps);
    insert_strint(&mut rt.maps, m, &s("k"), 3);
    assert_eq!(lookup_strint(&rt.maps, m, &s("nope")), 0);
    assert_eq!(len_strint(&rt.maps, m), 1);
    let f = alloc_intfloat(&mut rt.maps);
    assert_eq!(lookup_intfloat(&rt.maps, f, 1), 0);
    insert_intfloat(&mut rt.maps, f, 1, 2.5f64.to_bits());
    assert_eq!(f64::from_bits(lookup_intfloat(&rt.maps, f, 1)), 2.5);
}

#[test]
fn record_assignment_resplits() {
    let mut rt = Runtime::new();
    assert!(set_col(&mut rt, 0, &s("p,q")));
    assert_eq!(rt.vars.nf, -1);
    assert_eq!(text(&get_col(&mut rt, 0).unwrap()), "p,q");
    store_var_str(&mut rt, FS, &s(","));
    assert_eq!(load_var_int(&mut rt, NF), Some(2));
    assert_eq!(text(&get_col(&mut rt, 2).unwrap()), "q");
}

#[test]
fn comparisons_agree() {
    let pairs = [("abc", "abd"), ("ab", "abc"), ("b", "a"), ("same", "same"), ("", "a")];
    for (a, b) in pairs.iter() {
        let (x, y) = (s(a), s(b));
        let lt = str_lt(&x, &y);
        let eq = str_eq(&x, &y);
        let gt = str_gt(&x, &y);
        assert_eq!(lt + eq + gt, 1);
        assert_eq!(str_lte(&x, &y), lt | eq);
        assert_eq!(str_gte(&x, &y), gt | eq);
        assert_eq!(str_lt(&y, &x), gt);
        assert_eq!(lt == 1, a.as_bytes() < b.as_bytes());
    }
    assert_eq!(str_lt(&s("Z"), &s("a")), 1);
}

#[test]
fn split_int_matches_split_str() {
    let mut rt = Runtime::new();
    let mi = alloc_intstr(&mut rt.maps);
    let ms = alloc_strstr(&mut rt.maps);
    let t = s("  alpha beta\tgamma  ");
    let p = s(" ");
    assert_eq!(split_int(&mut rt, &t, mi, &p), 3);
    assert_eq!(split_str(&mut rt, &t, ms, &p), 3);
    for k in 1..=3i64 {
        let a = lookup_intstr(&rt.maps, mi, k);
        let b = lookup_strstr(&rt.maps, ms, &int_to_str(k));
        assert_eq!(str_eq(&a, &b), 1);
    }
    assert_eq!(text(&lookup_intstr(&rt.maps, mi, 3)), "gamma");
}

#[test]
fn split_by_regex() {
    let mut rt = Runtime::new();
    let m = alloc_intstr(&mut rt.maps);
    assert_eq!(split_int(&mut rt, &s("a1b22c"), m, &s("[0-9]+")), 3);
    assert_eq!(text(&lookup_intstr(&rt.maps, m, 2)), "b");
    assert_eq!(text(&lookup_intstr(&rt.maps, m, 3)), "c");
    assert_eq!(try_split_int(&mut rt, &s("x"), m, &s("([")), None);
    assert_eq!(try_split_int(&mut rt, &s(""), m, &s(",")), Some(0));
}

#[test]
fn int_round_trip() {
    for n in [0i64, 7, -7, 10, 1234567890, i64::MAX, i64::MIN] {
        let t = int_to_str(n);
        assert_eq!(text(&t), n.to_string());
        assert_eq!(str_to_int(&t), n);
    }
}

#[test]
fn str_to_int_prefixes() {
    assert_eq!(str_to_int(&s("42abc")), 42);
    assert_eq!(str_to_int(&s("-17")), -17);
    assert_eq!(str_to_int(&s("+8")), 8);
    assert_eq!(str_to_int(&s("")), 0);
    assert_eq!(str_to_int(&s("x9")), 0);
    assert_eq!(str_to_int(&s("99999999999999999999")), i64::MAX);
    assert_eq!(str_to_int(&s("-99999999999999999999")), i64::MIN);
}

#[test]
fn concat_adds_lengths() {
    let a = s("foo");
    let b = s("barbaz");
    let c = frawk_rt::strings::concat(&a, &b);
    assert_eq!(str_len(&c), str_len(&a) + str_len(&b));
    assert_eq!(text(&c), "foobarbaz");
    assert_eq!(text(&a), "foo");
}

#[test]
fn column_past_end_is_empty() {
    let mut rt = Runtime::new();
    assert!(set_col(&mut rt, 0, &s("one two")));
    assert_eq!(text(&get_col(&mut rt, 9).unwrap()), "");
    assert_eq!(rt.vars.nf, 2);
}

#[test]
fn set_col_past_end_pads() {
    let mut rt = Runtime::new();
    assert!(set_col(&mut rt, 0, &s("a b")));
    assert!(set_col(&mut rt, 5, &s("e")));
    assert_eq!(rt.split_line.len(), 5);
    assert_eq!(text(&get_col(&mut rt, 2).unwrap()), "b");
    assert_eq!(text(&get_col(&mut rt, 4).unwrap()), "");
    assert_eq!(text(&get_col(&mut rt, 5).unwrap()), "e");
}

#[test]
fn single_byte_separator_keeps_empty_fields() {
    let mut rt = Runtime::new();
    store_var_str(&mut rt, FS, &s(":"));
    assert!(set_col(&mut rt, 0, &s(":a::")));
    assert_eq!(load_var_int(&mut rt, NF), Some(4));
    assert_eq!(text(&get_col(&mut rt, 2).unwrap()), "a");
}

#[test]
fn bad_field_separator_is_reported() {
    let mut rt = Runtime::new();
    store_var_str(&mut rt, FS, &s("(("));
    assert!(set_col(&mut rt, 0, &s("a b")));
    assert!(get_col(&mut rt, 1).is_none());
    assert_eq!(load_var_int(&mut rt, NF), None);
}

#[test]
fn variables_load_and_store() {
    let mut rt = Runtime::new();
    assert_eq!(text(&load_var_str(&rt, FS)), " ");
    assert_eq!(text(&load_var_str(&rt, RS)), "\n");
    store_var_str(&mut rt, OFS, &s("-"));
    assert_eq!(text(&load_var_str(&rt, OFS)), "-");
    store_var_int(&mut rt, ARGC, 3);
    store_var_int(&mut rt, NR, 9);
    assert_eq!(load_var_int(&mut rt, ARGC), Some(3));
    assert_eq!(load_var_int(&mut rt, NR), Some(9));
    let argv = load_var_intmap(&mut rt, ARGV);
    assert_eq!(rt.maps.ref_count(argv), 2);
    let other = alloc_intstr(&mut rt.maps);
    store_var_intmap(&mut rt, ARGV, other);
    assert_eq!(rt.maps.ref_count(argv), 1);
    assert_eq!(rt.maps.ref_count(other), 2);
    assert_eq!(rt.vars.argv, other);
}

#[test]
fn catalog_declares_once() {
    let mut m = register::<u32>();
    match m.get("concat") {
        Some(Declaration::Pending(sig)) => {
            assert_eq!(sig.params, vec![MachineType::StrRef, MachineType::StrRef]);
            assert_eq!(sig.ret, MachineType::StrValue);
        }
        _ => panic!("concat should be registered and pending"),
    }
    match m.get("split_int") {
        Some(Declaration::Pending(sig)) => {
            assert_eq!(
                sig.params,
                vec![
                    MachineType::Runtime,
                    MachineType::StrRef,
                    MachineType::Usize,
                    MachineType::StrRef
                ]
            );
            assert_eq!(sig.ret, MachineType::Int);
        }
        _ => panic!("split_int should be registered and pending"),
    }
    assert!(m.get("no_such_intrinsic").is_none());
    assert!(m.declare("concat", 7));
    assert!(matches!(m.get("concat"), Some(Declaration::Declared(7))));
    assert!(m.declare("concat", 9));
    assert!(matches!(m.get("concat"), Some(Declaration::Declared(7))));
    assert!(!m.declare("no_such_intrinsic", 1));
    assert!(m.contains("concat"));
    assert!(!m.contains("no_such_intrinsic"));
    m.register("no_such_intrinsic", Signature::new(&[], MachineType::Void));
    assert!(matches!(m.get("no_such_intrinsic"), Some(Declaration::Pending(_))));
    assert!(matches!(m.get("alloc_strfloat"), Some(Declaration::Pending(_))));
}
