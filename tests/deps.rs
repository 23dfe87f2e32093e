use dynamic_instrumentation::deps::{build_dependency, DependencyGraph, DependencyInfo, DependencySymbol};

fn sym(name: &str, path: &str) -> DependencySymbol {
    DependencySymbol { name: name.to_string(), path: path.to_string() }
}

fn unit(out: &str, undefined: Vec<DependencySymbol>, defined: Vec<DependencySymbol>) -> DependencyInfo {
    DependencyInfo {
        input_path: format!("{}.c", out),
        output_path: format!("{}.rs", out),
        undefined,
        defined,
    }
}

#[test]
fn exact_dependence_needs_equal_name_and_path() {
    let a = sym("f", "src/a/util.c");
    assert!(a.depends_on(&sym("f", "src/a/util.c"), false));
    assert!(!a.depends_on(&sym("f", "src/a/util.h"), false));
    assert!(!a.depends_on(&sym("g", "src/a/util.c"), false));
}

#[test]
fn fuzzy_dependence_compares_directory_and_stem() {
    let a = sym("f", "src/a/util.c");
    assert!(a.depends_on(&sym("f", "src/a/util.h"), true));
    assert!(!a.depends_on(&sym("f", "src/b/util.h"), true));
    assert!(!a.depends_on(&sym("f", "src/a/other.h"), true));
    assert!(!a.depends_on(&sym("g", "src/a/util.h"), true));
}

#[test]
fn main_unit_is_recognized() {
    let m = unit("main", vec![], vec![sym("helper", "x.c"), sym("main", "main.c")]);
    assert!(m.is_main());
    let h = unit("lib", vec![], vec![sym("helper", "x.c")]);
    assert!(!h.is_main());
}

#[test]
fn units_compare_by_paths() {
    let a = unit("a", vec![sym("x", "x.c")], vec![]);
    let b = unit("a", vec![], vec![sym("y", "y.c")]);
    let c = unit("c", vec![], vec![]);
    assert!(a == b);
    assert!(a != c);
}

#[test]
fn graph_edges_follow_undefined_symbols() {
    let units = vec![
        unit("main", vec![sym("f", "lib/f.c"), sym("g", "lib/g.c")], vec![sym("main", "main.c")]),
        unit("f", vec![sym("g", "lib/g.c")], vec![sym("f", "lib/f.c")]),
        unit("g", vec![sym("main", "main.c")], vec![sym("g", "lib/g.c")]),
    ];
    let graph = build_dependency(units, false);
    assert_eq!(graph.nodes.len(), 3);
    assert_eq!(graph.edges, vec![vec![1, 2], vec![2], vec![]]);
}

#[test]
fn edges_accumulate_and_nodes_start_without_edges() {
    let mut graph = DependencyGraph::new();
    graph.add_node(unit("a", vec![sym("b", "b.c")], vec![]));
    graph.add_node(unit("b", vec![], vec![sym("b", "b.c")]));
    assert_eq!(graph.edges, vec![Vec::<usize>::new(), vec![]]);
    graph.build_dependency_edges(false);
    assert_eq!(graph.edges, vec![vec![1], vec![]]);
    graph.build_dependency_edges(false);
    assert_eq!(graph.edges, vec![vec![1, 1], vec![]]);
}

#[test]
fn fuzzy_graph_matches_headers() {
    let units = vec![
        unit("a", vec![sym("f", "lib/f.h")], vec![]),
        unit("f", vec![], vec![sym("f", "lib/f.c")]),
    ];
    assert_eq!(build_dependency(units, true).edges, vec![vec![1], vec![]]);
}
