//! Dependency graphs between translation units: each unit's undefined
//! symbols are matched against the symbols other units define.
use vstd::prelude::*;
use std::path::Path;

verus! {

/// Whether two paths have the same parent directory, as `std::path` compares
/// them (component by component).
pub uninterp spec fn same_parent(a: Seq<char>, b: Seq<char>) -> bool;

/// Whether two paths have the same file stem, as `std::path` compares them.
pub uninterp spec fn same_stem(a: Seq<char>, b: Seq<char>) -> bool;

/// Relies on `std::path::Path::parent`, compared with `Path`'s equality:
/// whether both paths have the same parent (or both none). Equal paths have.
#[verifier::external_body]
fn parents_equal(a: &str, b: &str) -> (r: bool)
    ensures
        r == same_parent(a@, b@),
        a@ == b@ ==> r,
{
    Path::new(a).parent() == Path::new(b).parent()
}

/// Relies on `std::path::Path::file_stem`: whether both paths have the same
/// file stem (or both none). Equal paths have.
#[verifier::external_body]
fn stems_equal(a: &str, b: &str) -> (r: bool)
    ensures
        r == same_stem(a@, b@),
        a@ == b@ ==> r,
{
    Path::new(a).file_stem() == Path::new(b).file_stem()
}

/// A symbol and the path of the file it belongs to.
#[derive(Debug)]
pub struct DependencySymbol {
    pub name: String,
    pub path: String,
}

/// The mathematical value of a [`DependencySymbol`].
pub struct SymbolView {
    pub name: Seq<char>,
    pub path: Seq<char>,
}

impl View for DependencySymbol {
    type V = SymbolView;

    open spec fn view(&self) -> SymbolView {
        SymbolView { name: self.name@, path: self.path@ }
    }
}

impl PartialEq for DependencySymbol {
    fn eq(&self, other: &DependencySymbol) -> (r: bool) {
        self.name == other.name && self.path == other.path
    }
}

impl vstd::std_specs::cmp::PartialEqSpecImpl for DependencySymbol {
    open spec fn obeys_eq_spec() -> bool {
        true
    }

    open spec fn eq_spec(&self, other: &DependencySymbol) -> bool {
        self@ == other@
    }
}

/// Whether a symbol `s` satisfies a reference to `other`: equal names and
/// paths, or, with fuzzy matching, equal names and paths with the same
/// parent and file stem.
pub open spec fn depends_spec(s: SymbolView, other: SymbolView, fuzz_depends: bool) -> bool {
    if fuzz_depends {
        s.name == other.name && same_parent(s.path, other.path) && same_stem(s.path, other.path)
    } else {
        s == other
    }
}

impl DependencySymbol {
    pub fn depends_on(&self, other: &Self, fuzz_depends: bool) -> (r: bool)
        ensures
            r == depends_spec(self@, other@, fuzz_depends),
    {
        if fuzz_depends {
            self.name == other.name && parents_equal(self.path.as_str(), other.path.as_str())
                && stems_equal(self.path.as_str(), other.path.as_str())
        } else {
            self.name == other.name && self.path == other.path
        }
    }
}

/// A translation unit: its input and output paths, and the symbols it uses
/// without defining and those it defines.
#[derive(Debug)]
pub struct DependencyInfo {
    pub input_path: String,
    pub output_path: String,
    pub undefined: Vec<DependencySymbol>,
    pub defined: Vec<DependencySymbol>,
}

/// The mathematical value of a [`DependencyInfo`].
pub struct InfoView {
    pub input_path: Seq<char>,
    pub output_path: Seq<char>,
    pub undefined: Seq<SymbolView>,
    pub defined: Seq<SymbolView>,
}

impl View for DependencyInfo {
    type V = InfoView;

    open spec fn view(&self) -> InfoView {
        InfoView {
            input_path: self.input_path@,
            output_path: self.output_path@,
            undefined: self.undefined@.map_values(|s: DependencySymbol| s@),
            defined: self.defined@.map_values(|s: DependencySymbol| s@),
        }
    }
}

/// Two units are the same unit when their input and output paths are.
impl PartialEq for DependencyInfo {
    fn eq(&self, other: &DependencyInfo) -> (r: bool) {
        self.input_path == other.input_path && self.output_path == other.output_path
    }
}

impl vstd::std_specs::cmp::PartialEqSpecImpl for DependencyInfo {
    open spec fn obeys_eq_spec() -> bool {
        true
    }

    open spec fn eq_spec(&self, other: &DependencyInfo) -> bool {
        self.input_path@ == other.input_path@ && self.output_path@ == other.output_path@
    }
}

/// Whether the unit defines `main`.
pub open spec fn is_main_spec(n: InfoView) -> bool {
    exists|k: int| 0 <= k < n.defined.len() && n.defined[k].name == "main"@
}

impl DependencyInfo {
    pub fn is_main(&self) -> (r: bool)
        ensures
            r == is_main_spec(self@),
    {
        let main = "main".to_owned();
        let n = self.defined.len();
        for k in 0..n
            invariant
                n == self.defined@.len(),
                main@ == "main"@,
                forall|j: int| 0 <= j < k ==> self.defined@[j].name@ != "main"@,
        {
            if self.defined[k].name == main {
                assert(self@.defined[k as int].name == "main"@);
                return true;
            }
        }
        false
    }
}

/// Whether unit `n` can satisfy a reference to `sym`: it is not the main
/// unit and one of its symbols satisfies the reference.
pub open spec fn provides(n: InfoView, sym: SymbolView, fuzz_depends: bool) -> bool {
    !is_main_spec(n) && exists|k: int| 0 <= k < n.defined.len() && depends_spec(n.defined[k], sym, fuzz_depends)
}

/// The units among the first `j` that can satisfy `sym`, in order.
pub open spec fn providers_upto(nodes: Seq<InfoView>, sym: SymbolView, fuzz_depends: bool, j: int) -> Seq<usize>
    decreases j,
{
    if j <= 0 || j > nodes.len() {
        Seq::empty()
    } else {
        providers_upto(nodes, sym, fuzz_depends, j - 1) + if provides(nodes[j - 1], sym, fuzz_depends) {
            seq![(j - 1) as usize]
        } else {
            Seq::empty()
        }
    }
}

/// The edges of unit `i` for its first `k` undefined symbols: for each
/// symbol in order, every unit that can satisfy it, in order.
pub open spec fn edges_upto(nodes: Seq<InfoView>, i: int, fuzz_depends: bool, k: int) -> Seq<usize>
    decreases k,
{
    if k <= 0 || k > nodes[i].undefined.len() {
        Seq::empty()
    } else {
        edges_upto(nodes, i, fuzz_depends, k - 1) + providers_upto(
            nodes,
            nodes[i].undefined[k - 1],
            fuzz_depends,
            nodes.len() as int,
        )
    }
}

/// The edges of unit `i`.
pub open spec fn node_edges(nodes: Seq<InfoView>, i: int, fuzz_depends: bool) -> Seq<usize> {
    edges_upto(nodes, i, fuzz_depends, nodes[i].undefined.len() as int)
}

/// Units and, for each unit, the units it depends on.
#[derive(Debug)]
pub struct DependencyGraph {
    pub nodes: Vec<DependencyInfo>,
    pub edges: Vec<Vec<usize>>,
}

impl DependencyGraph {
    pub open spec fn nodes_view(&self) -> Seq<InfoView> {
        self.nodes@.map_values(|n: DependencyInfo| n@)
    }

    pub open spec fn edges_view(&self) -> Seq<Seq<usize>> {
        self.edges@.map_values(|e: Vec<usize>| e@)
    }

    /// Every unit has its list of edges.
    pub open spec fn wf(&self) -> bool {
        self.edges@.len() == self.nodes@.len()
    }

    pub fn new() -> (r: Self)
        ensures
            r.wf(),
            r.nodes@.len() == 0,
    {
        DependencyGraph { nodes: Vec::new(), edges: Vec::new() }
    }

    /// Adds a unit, with no edges yet.
    pub fn add_node(&mut self, node: DependencyInfo)
        requires
            old(self).wf(),
        ensures
            final(self).wf(),
            final(self).nodes_view() == old(self).nodes_view().push(node@),
            final(self).edges_view() == old(self).edges_view().push(Seq::empty()),
    {
        let ghost n = node@;
        self.nodes.push(node);
        self.edges.push(Vec::new());
        assert(self.nodes_view() =~= old(self).nodes_view().push(n));
        assert(self.edges_view() =~= old(self).edges_view().push(Seq::empty()));
    }

    /// Adds, for each unit, an edge to every unit that can satisfy one of its
    /// undefined symbols (symbol by symbol, units in order).
    pub fn build_dependency_edges(&mut self, fuzz_depends: bool)
        requires
            old(self).wf(),
        ensures
            final(self).wf(),
            final(self).nodes_view() == old(self).nodes_view(),
            forall|i: int| 0 <= i < old(self).nodes@.len() ==> #[trigger] final(self).edges_view()[i]
                == old(self).edges_view()[i] + node_edges(old(self).nodes_view(), i, fuzz_depends),
    {
        let ghost nodes = self.nodes_view();
        let ghost e0 = self.edges_view();
        let n = self.nodes.len();
        for i in 0..n
            invariant
                n == self.nodes@.len(),
                self.wf(),
                self.nodes_view() == nodes,
                self.edges_view().len() == e0.len(),
                forall|j: int| 0 <= j < i ==> #[trigger] self.edges_view()[j] == e0[j] + node_edges(nodes, j, fuzz_depends),
                forall|j: int| i <= j < n ==> #[trigger] self.edges_view()[j] == e0[j],
        {
            let m = self.nodes[i].undefined.len();
            let ghost base = self.edges_view()[i as int];
            for k in 0..m
                invariant
                    n == self.nodes@.len(),
                    0 <= i < n,
                    m == nodes[i as int].undefined.len(),
                    self.wf(),
                    self.nodes_view() == nodes,
                    self.edges_view().len() == e0.len(),
                    self.edges_view()[i as int] == base + edges_upto(nodes, i as int, fuzz_depends, k as int),
                    forall|j: int| 0 <= j < n && j != i ==> #[trigger] self.edges_view()[j] == old_edges_at(j, i as int, e0, nodes, fuzz_depends),
            {
                for j in 0..n
                    invariant
                        n == self.nodes@.len(),
                        0 <= i < n,
                        k < m,
                        m == nodes[i as int].undefined.len(),
                        self.wf(),
                        self.nodes_view() == nodes,
                        self.edges_view().len() == e0.len(),
                        self.edges_view()[i as int] == base + edges_upto(nodes, i as int, fuzz_depends, k as int)
                            + providers_upto(nodes, nodes[i as int].undefined[k as int], fuzz_depends, j as int),
                        forall|jj: int| 0 <= jj < n && jj != i ==> #[trigger] self.edges_view()[jj] == old_edges_at(jj, i as int, e0, nodes, fuzz_depends),
                {
                    let ghost sym = nodes[i as int].undefined[k as int];
                    assert(self.nodes@[i as int].undefined@[k as int]@ == sym);
                    let provider = !self.nodes[j].is_main() && self.nodes[j].defined_depends(&self.nodes[i].undefined[k], fuzz_depends);
                    let ghost before = self.edges_view();
                    if provider {
                        self.edges[i].push(j);
                    }
                    proof {
                        assert(self.nodes@[j as int]@ == nodes[j as int]);
                        assert(provider == provides(nodes[j as int], sym, fuzz_depends));
                        assert(self.edges_view()[i as int] =~= base + edges_upto(nodes, i as int, fuzz_depends, k as int)
                            + providers_upto(nodes, sym, fuzz_depends, j + 1));
                        assert forall|jj: int| 0 <= jj < n && jj != i implies #[trigger] self.edges_view()[jj] == old_edges_at(jj, i as int, e0, nodes, fuzz_depends) by {
                            assert(self.edges_view()[jj] == before[jj]);
                        }
                    }
                }
                assert(self.edges_view()[i as int] =~= base + edges_upto(nodes, i as int, fuzz_depends, k + 1));
            }
            proof {
                assert forall|j: int| 0 <= j < i + 1 implies #[trigger] self.edges_view()[j] == e0[j] + node_edges(nodes, j, fuzz_depends) by {
                    if j < i {
                        assert(self.edges_view()[j] == old_edges_at(j, i as int, e0, nodes, fuzz_depends));
                    }
                }
                assert forall|j: int| i + 1 <= j < n implies #[trigger] self.edges_view()[j] == e0[j] by {
                    assert(self.edges_view()[j] == old_edges_at(j, i as int, e0, nodes, fuzz_depends));
                }
            }
        }
    }
}

/// The edges of unit `j` while unit `i` is being processed: complete for the
/// units before `i`, untouched for those after.
pub open spec fn old_edges_at(j: int, i: int, e0: Seq<Seq<usize>>, nodes: Seq<InfoView>, fuzz_depends: bool) -> Seq<usize> {
    if j < i {
        e0[j] + node_edges(nodes, j, fuzz_depends)
    } else {
        e0[j]
    }
}

impl DependencyInfo {
    /// Whether one of the unit's symbols satisfies a reference to `sym`.
    pub fn defined_depends(&self, sym: &DependencySymbol, fuzz_depends: bool) -> (r: bool)
        ensures
            r == exists|k: int| 0 <= k < self@.defined.len() && depends_spec(self@.defined[k], sym@, fuzz_depends),
    {
        let n = self.defined.len();
        for k in 0..n
            invariant
                n == self.defined@.len(),
                forall|j: int| 0 <= j < k ==> !depends_spec(self@.defined[j], sym@, fuzz_depends),
        {
            if self.defined[k].depends_on(sym, fuzz_depends) {
                assert(self@.defined[k as int] == self.defined@[k as int]@);
                return true;
            }
        }
        false
    }
}

/// The dependency graph of the units, in the order given.
pub fn build_dependency(dependency_infos: Vec<DependencyInfo>, fuzz_depends: bool) -> (r: DependencyGraph)
    ensures
        r.wf(),
        r.nodes_view() == dependency_infos@.map_values(|n: DependencyInfo| n@),
        forall|i: int| 0 <= i < r.nodes@.len() ==> #[trigger] r.edges_view()[i] == node_edges(r.nodes_view(), i, fuzz_depends),
{
    let ghost infos = dependency_infos@.map_values(|n: DependencyInfo| n@);
    let mut graph = DependencyGraph::new();
    let mut rest = dependency_infos;
    assert(graph.nodes_view() + rest@.map_values(|n: DependencyInfo| n@) =~= infos);
    while rest.len() > 0
        invariant
            graph.wf(),
            graph.nodes_view() + rest@.map_values(|n: DependencyInfo| n@) == infos,
            forall|k: int| 0 <= k < graph.edges_view().len() ==> #[trigger] graph.edges_view()[k] == Seq::<usize>::empty(),
        decreases rest@.len(),
    {
        let ghost r0 = rest@;
        let ghost g0 = graph.nodes_view();
        let node = rest.remove(0);
        graph.add_node(node);
        proof {
            assert(r0.map_values(|n: DependencyInfo| n@) =~= seq![node@] + rest@.map_values(|n: DependencyInfo| n@));
            assert(graph.nodes_view() + rest@.map_values(|n: DependencyInfo| n@)
                =~= g0 + r0.map_values(|n: DependencyInfo| n@));
        }
    }
    assert(graph.nodes_view() =~= infos);
    let ghost e0 = graph.edges_view();
    graph.build_dependency_edges(fuzz_depends);
    proof {
        assert forall|i: int| 0 <= i < graph.nodes@.len() implies #[trigger] graph.edges_view()[i] == node_edges(graph.nodes_view(), i, fuzz_depends) by {
            assert(e0[i] == Seq::<usize>::empty());
            assert(Seq::<usize>::empty() + node_edges(graph.nodes_view(), i, fuzz_depends) =~= node_edges(graph.nodes_view(), i, fuzz_depends));
        }
    }
    graph
}

} // verus!
