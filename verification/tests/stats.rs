use fs_syntax::parse_module;
use fs_syntax::stats::{add_stats, import_counts, module_stats, ranks_before, ModuleStats};

#[test]
fn module_stats_count_kinds_exports_and_imports() {
    let src = r#"
FeatureScript 2960;
import(path : "onshape/std/geometry.fs", version : "2960.0");
import(path : "a.fs", version : "1.0");
export import(version : "1.0");
export const X = 1;
var y = 2;
function f(a) { return a; }
export function g() {}
export enum Kind { A, B }
export type Foo typecheck canBeFoo;
export operator+(a is Foo, b is Foo) returns Foo { return a; }
export predicate canBeFoo(value) { value is map; }
"#;
    let m = parse_module(src).unwrap();
    let st = module_stats(&m);
    // import, function, predicate, operator, type, enum, const, var
    assert_eq!(st.counts, vec![3, 2, 1, 1, 1, 1, 1, 1]);
    assert_eq!(st.exported, 7);
    // The import without a `path` adds no path.
    assert_eq!(st.import_paths, vec!["onshape/std/geometry.fs".to_string(), "a.fs".to_string()]);
}

#[test]
fn module_stats_of_an_empty_module() {
    let st = module_stats(&parse_module("").unwrap());
    assert_eq!(st.counts, vec![0; 8]);
    assert_eq!(st.exported, 0);
    assert!(st.import_paths.is_empty());
}

#[test]
fn import_ranking_puts_more_imports_first_then_paths_in_order() {
    assert!(ranks_before("b.fs", 3, "a.fs", 2));
    assert!(!ranks_before("a.fs", 2, "b.fs", 3));
    assert!(ranks_before("a.fs", 2, "b.fs", 2));
    assert!(!ranks_before("b.fs", 2, "a.fs", 2));
    assert!(ranks_before("a", 1, "ab", 1));
    assert!(!ranks_before("a", 1, "a", 1));
}

#[test]
fn totals_add_up_across_modules() {
    let a = module_stats(&parse_module("import(path : \"x.fs\", version : \"1\"); const A = 1;").unwrap());
    let b = module_stats(&parse_module("export const B = 2; import(path : \"y.fs\", version : \"1\");").unwrap());
    let mut t = ModuleStats { counts: vec![0; 8], exported: 0, import_paths: Vec::new() };
    add_stats(&mut t, &a);
    add_stats(&mut t, &b);
    assert_eq!(t.counts, vec![2, 0, 0, 0, 0, 0, 2, 0]);
    assert_eq!(t.exported, 1);
    assert_eq!(t.import_paths, vec!["x.fs".to_string(), "y.fs".to_string()]);
}

#[test]
fn import_counts_list_each_path_once_with_its_count() {
    let paths: Vec<String> = ["a.fs", "b.fs", "a.fs", "c.fs", "a.fs", "b.fs"].iter().map(|p| p.to_string()).collect();
    let mut counts = import_counts(&paths);
    counts.sort();
    assert_eq!(counts, vec![("a.fs".to_string(), 3), ("b.fs".to_string(), 2), ("c.fs".to_string(), 1)]);
    assert!(import_counts(&Vec::new()).is_empty());
}
