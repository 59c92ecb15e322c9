//! The index over a schema that generation walks: the declarations of each
//! namespace, and in each namespace the declarations of each result type.
//!
//! Namespaces stand in ascending order, the declarations without one
//! first. Result types stand in ascending order of their names, and those
//! of one name in the order in which the schema first has them. The
//! declarations of an entry stand in the order of the schema, each once.

use vstd::prelude::*;
use crate::equality::{same_decl, same_opt_bytes, same_res};
use crate::ordering::{
    before, bytes_before, lemma_before_asymmetric, lemma_before_transitive,
    lemma_ns_before, namespace_before, ns_before,
};
use crate::types::{decls_view, opt_bytes, CombinatorDecl, CombinatorView, ResType, ResTypeView,
    SchemaView, TLSchema,
};

verus! {

/// The declarations of one namespace.
pub struct Namespace<'a> {
    pub name: Option<Vec<u8>>,
    pub decls: Vec<&'a CombinatorDecl>,
}

/// The declarations of one result type.
pub struct TypeGroup<'a> {
    pub res: &'a ResType,
    pub decls: Vec<&'a CombinatorDecl>,
}

/// The result types of one namespace.
pub struct NamespaceGroups<'a> {
    pub name: Option<Vec<u8>>,
    pub groups: Vec<TypeGroup<'a>>,
}

/// The index over a schema.
pub struct Metadata<'a> {
    pub types_ns: Vec<Namespace<'a>>,
    pub funcs_ns: Vec<Namespace<'a>>,
    pub types_group_ns: Vec<NamespaceGroups<'a>>,
}

/// The view of the declarations of one namespace.
pub struct NamespaceView {
    pub name: Option<Seq<u8>>,
    pub decls: Seq<CombinatorView>,
}

/// The view of the declarations of one result type.
pub struct TypeGroupView {
    pub res: ResTypeView,
    pub decls: Seq<CombinatorView>,
}

/// The view of the result types of one namespace.
pub struct NamespaceGroupsView {
    pub name: Option<Seq<u8>>,
    pub groups: Seq<TypeGroupView>,
}

/// The view of an index.
pub struct MetadataView {
    pub types_ns: Seq<NamespaceView>,
    pub funcs_ns: Seq<NamespaceView>,
    pub types_group_ns: Seq<NamespaceGroupsView>,
}

/// The views of borrowed declarations.
pub open spec fn refs_view(s: Seq<&CombinatorDecl>) -> Seq<CombinatorView> {
    Seq::new(s.len(), |i: int| s[i]@)
}

/// The view of each entry of a list.
pub open spec fn namespaces_view(s: Seq<Namespace>) -> Seq<NamespaceView> {
    Seq::new(s.len(), |i: int| s[i]@)
}

/// The view of each group of a list.
pub open spec fn groups_view(s: Seq<TypeGroup>) -> Seq<TypeGroupView> {
    Seq::new(s.len(), |i: int| s[i]@)
}

/// The view of the groups of each namespace of a list.
pub open spec fn namespace_groups_view(s: Seq<NamespaceGroups>) -> Seq<NamespaceGroupsView> {
    Seq::new(s.len(), |i: int| s[i]@)
}

impl<'a> View for Namespace<'a> {
    type V = NamespaceView;

    open spec fn view(&self) -> NamespaceView {
        NamespaceView { name: opt_bytes(self.name), decls: refs_view(self.decls@) }
    }
}

impl<'a> View for TypeGroup<'a> {
    type V = TypeGroupView;

    open spec fn view(&self) -> TypeGroupView {
        TypeGroupView { res: self.res@, decls: refs_view(self.decls@) }
    }
}

impl<'a> View for NamespaceGroups<'a> {
    type V = NamespaceGroupsView;

    open spec fn view(&self) -> NamespaceGroupsView {
        NamespaceGroupsView { name: opt_bytes(self.name), groups: groups_view(self.groups@) }
    }
}

impl<'a> View for Metadata<'a> {
    type V = MetadataView;

    open spec fn view(&self) -> MetadataView {
        MetadataView {
            types_ns: namespaces_view(self.types_ns@),
            funcs_ns: namespaces_view(self.funcs_ns@),
            types_group_ns: namespace_groups_view(self.types_group_ns@),
        }
    }
}

// ---------------------------------------------------------------------------
// By namespace
// ---------------------------------------------------------------------------

/// The first entry from `from` on that is of the namespace, where there is
/// one.
pub open spec fn namespace_at(ns: Seq<NamespaceView>, name: Option<Seq<u8>>, from: int) -> Option<
    int,
>
    decreases ns.len() - from,
{
    if from < 0 || from >= ns.len() {
        None
    } else if ns[from].name == name {
        Some(from)
    } else {
        namespace_at(ns, name, from + 1)
    }
}

/// The first entry from `from` on that the namespace comes before, or the
/// end: the place of a new entry for it.
pub open spec fn namespace_slot(ns: Seq<NamespaceView>, name: Option<Seq<u8>>, from: int) -> int
    decreases ns.len() - from,
{
    if from < 0 || from >= ns.len() {
        ns.len() as int
    } else if ns_before(name, ns[from].name) {
        from
    } else {
        namespace_slot(ns, name, from + 1)
    }
}

/// The entries with one more declaration: at the end of the entry of its
/// namespace, unless that entry holds it already, or as a new entry at the
/// place of its namespace.
pub open spec fn placed(ns: Seq<NamespaceView>, d: CombinatorView) -> Seq<NamespaceView> {
    let name = d.identns.namespace;
    match namespace_at(ns, name, 0) {
        Some(i) => if ns[i].decls.contains(d) {
            ns
        } else {
            ns.update(i, NamespaceView { name, decls: ns[i].decls.push(d) })
        },
        None => ns.insert(namespace_slot(ns, name, 0), NamespaceView { name, decls: seq![d] }),
    }
}

/// The declarations by namespace.
pub open spec fn by_namespace(ds: Seq<CombinatorView>) -> Seq<NamespaceView>
    decreases ds.len(),
{
    if ds.len() == 0 {
        Seq::empty()
    } else {
        placed(by_namespace(ds.drop_last()), ds.last())
    }
}

// ---------------------------------------------------------------------------
// By result type
// ---------------------------------------------------------------------------

/// The first group from `from` on that is of the result type, where there
/// is one.
pub open spec fn group_at(gs: Seq<TypeGroupView>, res: ResTypeView, from: int) -> Option<int>
    decreases gs.len() - from,
{
    if from < 0 || from >= gs.len() {
        None
    } else if gs[from].res == res {
        Some(from)
    } else {
        group_at(gs, res, from + 1)
    }
}

/// The first group from `from` on whose name the name comes before, or the
/// end: the place of a new group of that name.
pub open spec fn group_slot(gs: Seq<TypeGroupView>, name: Seq<u8>, from: int) -> int
    decreases gs.len() - from,
{
    if from < 0 || from >= gs.len() {
        gs.len() as int
    } else if before(name, gs[from].res.identns().name) {
        from
    } else {
        group_slot(gs, name, from + 1)
    }
}

/// The groups with one more declaration: at the end of the group of its
/// result type, or as a new group at the place of that type's name.
pub open spec fn grouped(gs: Seq<TypeGroupView>, d: CombinatorView) -> Seq<TypeGroupView> {
    match group_at(gs, d.res, 0) {
        Some(i) => gs.update(i, TypeGroupView { res: d.res, decls: gs[i].decls.push(d) }),
        None => gs.insert(
            group_slot(gs, d.res.identns().name, 0),
            TypeGroupView { res: d.res, decls: seq![d] },
        ),
    }
}

/// The declarations by result type.
pub open spec fn by_result(ds: Seq<CombinatorView>) -> Seq<TypeGroupView>
    decreases ds.len(),
{
    if ds.len() == 0 {
        Seq::empty()
    } else {
        grouped(by_result(ds.drop_last()), ds.last())
    }
}

/// The result types of each namespace.
pub open spec fn namespace_groups(ns: Seq<NamespaceView>) -> Seq<NamespaceGroupsView> {
    Seq::new(
        ns.len(),
        |i: int| NamespaceGroupsView { name: ns[i].name, groups: by_result(ns[i].decls) },
    )
}

/// The index over a schema.
pub open spec fn metadata_of(s: SchemaView) -> MetadataView {
    MetadataView {
        types_ns: by_namespace(s.constrs),
        funcs_ns: by_namespace(s.funcs),
        types_group_ns: namespace_groups(by_namespace(s.constrs)),
    }
}

// ---------------------------------------------------------------------------
// Building
// ---------------------------------------------------------------------------

fn holds(decls: &Vec<&CombinatorDecl>, d: &CombinatorDecl) -> (r: bool)
    ensures
        r == refs_view(decls@).contains(d@),
{
    let mut i: usize = 0;
    while i < decls.len()
        invariant
            i <= decls@.len(),
            forall|j: int| 0 <= j < i ==> refs_view(decls@)[j] != d@,
        decreases decls@.len() - i,
    {
        if same_decl(decls[i], d) {
            assert(refs_view(decls@)[i as int] == d@);
            return true;
        }
        i += 1;
    }
    false
}

fn find_namespace(entries: &Vec<Namespace>, name: &Option<Vec<u8>>) -> (r: Option<usize>)
    ensures
        match r {
            Some(i) => namespace_at(namespaces_view(entries@), opt_bytes(*name), 0) == Some(
                i as int,
            ) && i < entries@.len() && entries@[i as int]@.name == opt_bytes(*name),
            None => namespace_at(namespaces_view(entries@), opt_bytes(*name), 0) is None,
        },
{
    let ghost ns = namespaces_view(entries@);
    let mut i: usize = 0;
    while i < entries.len()
        invariant
            i <= entries@.len(),
            ns == namespaces_view(entries@),
            namespace_at(ns, opt_bytes(*name), 0) == namespace_at(ns, opt_bytes(*name), i as int),
        decreases entries@.len() - i,
    {
        assert(ns[i as int] == entries@[i as int]@);
        if same_opt_bytes(&entries[i].name, name) {
            return Some(i);
        }
        i += 1;
    }
    None
}

fn find_namespace_slot(entries: &Vec<Namespace>, name: &Option<Vec<u8>>) -> (r: usize)
    ensures
        r == namespace_slot(namespaces_view(entries@), opt_bytes(*name), 0),
        r <= entries@.len(),
{
    let ghost ns = namespaces_view(entries@);
    let mut i: usize = 0;
    while i < entries.len()
        invariant
            i <= entries@.len(),
            ns == namespaces_view(entries@),
            namespace_slot(ns, opt_bytes(*name), 0) == namespace_slot(
                ns,
                opt_bytes(*name),
                i as int,
            ),
        decreases entries@.len() - i,
    {
        assert(ns[i as int] == entries@[i as int]@);
        if namespace_before(name, &entries[i].name) {
            return i;
        }
        i += 1;
    }
    i
}

fn copy_name(name: &Option<Vec<u8>>) -> (r: Option<Vec<u8>>)
    ensures
        opt_bytes(r) == opt_bytes(*name),
{
    match name {
        Some(n) => Some(crate::text::to_vec(n.as_slice())),
        None => None,
    }
}

fn place<'a>(entries: &mut Vec<Namespace<'a>>, d: &'a CombinatorDecl)
    ensures
        namespaces_view(final(entries)@) == placed(namespaces_view(old(entries)@), d@),
{
    let ghost ns = namespaces_view(entries@);
    match find_namespace(entries, &d.identns.namespace) {
        Some(i) => {
            assert(ns[i as int] == entries@[i as int]@);
            if !holds(&entries[i].decls, d) {
                let ghost before = entries@;
                let mut entry = entries.remove(i);
                assert(refs_view(entry.decls@.push(d)) =~= refs_view(entry.decls@).push(d@));
                entry.decls.push(d);
                entries.insert(i, entry);
                assert(entries@ =~= before.update(i as int, entry));
                assert forall|j: int| 0 <= j < ns.len() implies namespaces_view(entries@)[j]
                    == placed(ns, d@)[j] by {
                    assert(ns[j] == before[j]@);
                }
                assert(namespaces_view(entries@) =~= placed(ns, d@));
            }
        },
        None => {
            let at = find_namespace_slot(entries, &d.identns.namespace);
            let mut decls: Vec<&'a CombinatorDecl> = Vec::new();
            decls.push(d);
            assert(refs_view(decls@) =~= seq![d@]);
            let ghost before = entries@;
            entries.insert(at, Namespace { name: copy_name(&d.identns.namespace), decls });
            assert forall|j: int| 0 <= j < entries@.len() implies namespaces_view(entries@)[j]
                == placed(ns, d@)[j] by {
                if j < at {
                    assert(ns[j] == before[j]@);
                } else if j > at {
                    assert(ns[j - 1] == before[j - 1]@);
                }
            }
            assert(namespaces_view(entries@) =~= placed(ns, d@));
        },
    }
}

fn group_by_namespace<'a>(decls: &'a Vec<CombinatorDecl>) -> (r: Vec<Namespace<'a>>)
    ensures
        namespaces_view(r@) == by_namespace(decls_view(decls@)),
{
    let ghost all = decls_view(decls@);
    let mut entries: Vec<Namespace<'a>> = Vec::new();
    assert(namespaces_view(entries@) =~= by_namespace(all.take(0)));
    let mut i: usize = 0;
    while i < decls.len()
        invariant
            i <= decls@.len(),
            all == decls_view(decls@),
            namespaces_view(entries@) == by_namespace(all.take(i as int)),
        decreases decls@.len() - i,
    {
        proof {
            assert(all.take(i + 1).drop_last() =~= all.take(i as int));
            assert(all.take(i + 1).last() == decls@[i as int]@);
        }
        place(&mut entries, &decls[i]);
        i += 1;
    }
    assert(all.take(i as int) =~= all);
    entries
}

fn find_group(groups: &Vec<TypeGroup>, res: &ResType) -> (r: Option<usize>)
    ensures
        match r {
            Some(i) => group_at(groups_view(groups@), res@, 0) == Some(i as int) && i
                < groups@.len() && groups@[i as int]@.res == res@,
            None => group_at(groups_view(groups@), res@, 0) is None,
        },
{
    let ghost gs = groups_view(groups@);
    let mut i: usize = 0;
    while i < groups.len()
        invariant
            i <= groups@.len(),
            gs == groups_view(groups@),
            group_at(gs, res@, 0) == group_at(gs, res@, i as int),
        decreases groups@.len() - i,
    {
        assert(gs[i as int] == groups@[i as int]@);
        if same_res(groups[i].res, res) {
            return Some(i);
        }
        i += 1;
    }
    None
}

fn find_group_slot(groups: &Vec<TypeGroup>, name: &[u8]) -> (r: usize)
    ensures
        r == group_slot(groups_view(groups@), name@, 0),
        r <= groups@.len(),
{
    let ghost gs = groups_view(groups@);
    let mut i: usize = 0;
    while i < groups.len()
        invariant
            i <= groups@.len(),
            gs == groups_view(groups@),
            group_slot(gs, name@, 0) == group_slot(gs, name@, i as int),
        decreases groups@.len() - i,
    {
        assert(gs[i as int] == groups@[i as int]@);
        if bytes_before(name, groups[i].res.identns().name.as_slice()) {
            return i;
        }
        i += 1;
    }
    i
}

fn group<'a>(groups: &mut Vec<TypeGroup<'a>>, d: &'a CombinatorDecl)
    ensures
        groups_view(final(groups)@) == grouped(groups_view(old(groups)@), d@),
{
    let ghost gs = groups_view(groups@);
    match find_group(groups, &d.res) {
        Some(i) => {
            assert(gs[i as int] == groups@[i as int]@);
            let ghost before = groups@;
            let mut entry = groups.remove(i);
            assert(refs_view(entry.decls@.push(d)) =~= refs_view(entry.decls@).push(d@));
            entry.decls.push(d);
            groups.insert(i, entry);
            assert(groups@ =~= before.update(i as int, entry));
            assert forall|j: int| 0 <= j < gs.len() implies groups_view(groups@)[j] == grouped(
                gs,
                d@,
            )[j] by {
                assert(gs[j] == before[j]@);
            }
            assert(groups_view(groups@) =~= grouped(gs, d@));
        },
        None => {
            let at = find_group_slot(groups, d.res.identns().name.as_slice());
            let mut decls: Vec<&'a CombinatorDecl> = Vec::new();
            decls.push(d);
            assert(refs_view(decls@) =~= seq![d@]);
            let ghost before = groups@;
            groups.insert(at, TypeGroup { res: &d.res, decls });
            assert forall|j: int| 0 <= j < groups@.len() implies groups_view(groups@)[j]
                == grouped(gs, d@)[j] by {
                if j < at {
                    assert(gs[j] == before[j]@);
                } else if j > at {
                    assert(gs[j - 1] == before[j - 1]@);
                }
            }
            assert(groups_view(groups@) =~= grouped(gs, d@));
        },
    }
}

fn group_by_result<'a>(decls: &Vec<&'a CombinatorDecl>) -> (r: Vec<TypeGroup<'a>>)
    ensures
        groups_view(r@) == by_result(refs_view(decls@)),
{
    let ghost all = refs_view(decls@);
    let mut groups: Vec<TypeGroup<'a>> = Vec::new();
    assert(groups_view(groups@) =~= by_result(all.take(0)));
    let mut i: usize = 0;
    while i < decls.len()
        invariant
            i <= decls@.len(),
            all == refs_view(decls@),
            groups_view(groups@) == by_result(all.take(i as int)),
        decreases decls@.len() - i,
    {
        proof {
            assert(all.take(i + 1).drop_last() =~= all.take(i as int));
            assert(all.take(i + 1).last() == decls@[i as int]@);
        }
        group(&mut groups, decls[i]);
        i += 1;
    }
    assert(all.take(i as int) =~= all);
    groups
}

impl<'a> Metadata<'a> {
    /// Builds the index over a schema.
    pub fn new(schema: &'a TLSchema) -> (r: Self)
        ensures
            r@ == metadata_of(schema@),
    {
        let types_ns = group_by_namespace(&schema.constrs);
        let funcs_ns = group_by_namespace(&schema.funcs);
        let ghost ns = namespaces_view(types_ns@);
        let mut types_group_ns: Vec<NamespaceGroups<'a>> = Vec::new();
        assert(namespace_groups_view(types_group_ns@) =~= namespace_groups(ns).take(0));
        let mut i: usize = 0;
        while i < types_ns.len()
            invariant
                i <= types_ns@.len(),
                ns == namespaces_view(types_ns@),
                namespace_groups_view(types_group_ns@) == namespace_groups(ns).take(i as int),
            decreases types_ns@.len() - i,
        {
            let entry = NamespaceGroups {
                name: copy_name(&types_ns[i].name),
                groups: group_by_result(&types_ns[i].decls),
            };
            proof {
                assert(ns[i as int] == types_ns@[i as int]@);
                assert(namespace_groups_view(types_group_ns@.push(entry))
                    =~= namespace_groups_view(types_group_ns@).push(entry@));
                assert(namespace_groups_view(types_group_ns@).push(entry@) =~= namespace_groups(
                    ns,
                ).take(i + 1));
            }
            types_group_ns.push(entry);
            i += 1;
        }
        assert(namespace_groups(ns).take(i as int) =~= namespace_groups(ns));
        Metadata { types_ns, funcs_ns, types_group_ns }
    }
}

// ---------------------------------------------------------------------------
// What holds of every index
// ---------------------------------------------------------------------------

/// Whether the namespaces stand in strictly ascending order.
pub open spec fn namespaces_ascend(ns: Seq<NamespaceView>) -> bool {
    forall|i: int, j: int| 0 <= i < j < ns.len() ==> ns_before(ns[i].name, ns[j].name)
}

/// Whether each entry holds declarations of `ds` and of its own namespace
/// only, each once, and at least one.
pub open spec fn namespaces_hold(ns: Seq<NamespaceView>, ds: Seq<CombinatorView>) -> bool {
    forall|i: int|
        0 <= i < ns.len() ==> {
            &&& (#[trigger] ns[i]).decls.len() > 0
            &&& ns[i].decls.no_duplicates()
            &&& forall|k: int|
                0 <= k < ns[i].decls.len() ==> ds.contains(#[trigger] ns[i].decls[k])
                    && ns[i].decls[k].identns.namespace == ns[i].name
        }
}

/// Whether each declaration of `ds` stands in an entry.
pub open spec fn namespaces_cover(ns: Seq<NamespaceView>, ds: Seq<CombinatorView>) -> bool {
    forall|k: int|
        0 <= k < ds.len() ==> exists|i: int|
            0 <= i < ns.len() && (#[trigger] ns[i]).decls.contains(#[trigger] ds[k])
}

/// `namespace_at` is the first entry of the namespace, and nothing where no
/// entry is of it.
pub proof fn lemma_namespace_at(ns: Seq<NamespaceView>, name: Option<Seq<u8>>, from: int)
    requires
        0 <= from,
    ensures
        match namespace_at(ns, name, from) {
            Some(i) => from <= i < ns.len() && ns[i].name == name && forall|j: int|
                from <= j < i ==> (#[trigger] ns[j]).name != name,
            None => forall|j: int| from <= j < ns.len() ==> (#[trigger] ns[j]).name != name,
        },
    decreases ns.len() - from,
{
    if from < ns.len() && ns[from].name != name {
        lemma_namespace_at(ns, name, from + 1);
    }
}

/// `namespace_slot` is the first entry that the namespace comes before, or
/// the end.
pub proof fn lemma_namespace_slot(ns: Seq<NamespaceView>, name: Option<Seq<u8>>, from: int)
    requires
        0 <= from <= ns.len(),
    ensures
        from <= namespace_slot(ns, name, from) <= ns.len(),
        forall|j: int|
            from <= j < namespace_slot(ns, name, from) ==> !ns_before(name, (#[trigger] ns[j]).name),
        namespace_slot(ns, name, from) < ns.len() ==> ns_before(
            name,
            ns[namespace_slot(ns, name, from)].name,
        ),
    decreases ns.len() - from,
{
    if from < ns.len() && !ns_before(name, ns[from].name) {
        lemma_namespace_slot(ns, name, from + 1);
    }
}

/// Placing a declaration keeps the order of the namespaces and what the
/// entries hold, and gives the declaration an entry.
pub proof fn lemma_placed(ns: Seq<NamespaceView>, ds: Seq<CombinatorView>, d: CombinatorView)
    requires
        namespaces_ascend(ns),
        namespaces_hold(ns, ds),
        namespaces_cover(ns, ds),
    ensures
        namespaces_ascend(placed(ns, d)),
        namespaces_hold(placed(ns, d), ds.push(d)),
        namespaces_cover(placed(ns, d), ds.push(d)),
{
    let name = d.identns.namespace;
    let after = placed(ns, d);
    let all = ds.push(d);
    lemma_namespace_at(ns, name, 0);
    assert forall|x: CombinatorView| ds.contains(x) implies all.contains(x) by {
        let k = choose|k: int| 0 <= k < ds.len() && ds[k] == x;
        assert(all[k] == x);
    }
    assert(all[ds.len() as int] == d);
    match namespace_at(ns, name, 0) {
        Some(i) => {
            if ns[i].decls.contains(d) {
                assert forall|k: int| 0 <= k < all.len() implies exists|e: int|
                    0 <= e < after.len() && (#[trigger] after[e]).decls.contains(
                        #[trigger] all[k],
                    ) by {
                    if k < ds.len() {
                        assert(all[k] == ds[k]);
                        let e = choose|e: int|
                            0 <= e < ns.len() && (#[trigger] ns[e]).decls.contains(ds[k]);
                        assert(after[e].decls.contains(all[k]));
                    } else {
                        assert(after[i].decls.contains(all[k]));
                    }
                }
            } else {
                let grown = ns[i].decls.push(d);
                assert(after[i].decls == grown);
                assert(grown[ns[i].decls.len() as int] == d);
                assert forall|e: int| 0 <= e < after.len() implies {
                    &&& (#[trigger] after[e]).decls.len() > 0
                    &&& after[e].decls.no_duplicates()
                    &&& forall|k: int|
                        0 <= k < after[e].decls.len() ==> all.contains(
                            #[trigger] after[e].decls[k],
                        ) && after[e].decls[k].identns.namespace == after[e].name
                } by {
                    if e == i {
                        assert forall|a: int, b: int|
                            0 <= a < grown.len() && 0 <= b < grown.len() && a != b implies grown[a]
                            != grown[b] by {
                            if a < ns[i].decls.len() && b < ns[i].decls.len() {
                                assert(ns[i].decls[a] != ns[i].decls[b]);
                            }
                        }
                        assert forall|k: int| 0 <= k < grown.len() implies all.contains(
                            #[trigger] grown[k],
                        ) && grown[k].identns.namespace == name by {
                            if k < ns[i].decls.len() {
                                assert(grown[k] == ns[i].decls[k]);
                                assert(ds.contains(ns[i].decls[k]));
                            }
                        }
                    } else {
                        assert(after[e] == ns[e]);
                        assert forall|k: int| 0 <= k < ns[e].decls.len() implies all.contains(
                            #[trigger] ns[e].decls[k],
                        ) by {
                            assert(ds.contains(ns[e].decls[k]));
                        }
                    }
                }
                assert forall|k: int| 0 <= k < all.len() implies exists|e: int|
                    0 <= e < after.len() && (#[trigger] after[e]).decls.contains(
                        #[trigger] all[k],
                    ) by {
                    if k < ds.len() {
                        assert(all[k] == ds[k]);
                        let e = choose|e: int|
                            0 <= e < ns.len() && (#[trigger] ns[e]).decls.contains(ds[k]);
                        if e == i {
                            let at = choose|at: int|
                                0 <= at < ns[i].decls.len() && ns[i].decls[at] == ds[k];
                            assert(grown[at] == ds[k]);
                        }
                        assert(after[e].decls.contains(all[k]));
                    } else {
                        assert(after[i].decls.contains(all[k]));
                    }
                }
            }
        },
        None => {
            let at = namespace_slot(ns, name, 0);
            lemma_namespace_slot(ns, name, 0);
            let fresh = NamespaceView { name, decls: seq![d] };
            assert(after == ns.insert(at, fresh));
            assert forall|a: int, b: int| 0 <= a < b < after.len() implies ns_before(
                after[a].name,
                after[b].name,
            ) by {
                if b < at {
                } else if a > at {
                    assert(after[a] == ns[a - 1] && after[b] == ns[b - 1]);
                } else if a == at {
                    assert(after[b] == ns[b - 1]);
                    lemma_ns_before(name, ns[at].name, ns[b - 1].name);
                } else if b == at {
                    assert(after[a] == ns[a]);
                    lemma_ns_before(ns[a].name, name, name);
                } else {
                    assert(after[a] == ns[a] && after[b] == ns[b - 1]);
                }
            }
            assert(fresh.decls[0] == d);
            assert forall|e: int| 0 <= e < after.len() implies {
                &&& (#[trigger] after[e]).decls.len() > 0
                &&& after[e].decls.no_duplicates()
                &&& forall|k: int|
                    0 <= k < after[e].decls.len() ==> all.contains(#[trigger] after[e].decls[k])
                        && after[e].decls[k].identns.namespace == after[e].name
            } by {
                if e != at {
                    let o = if e < at {
                        e
                    } else {
                        e - 1
                    };
                    assert(after[e] == ns[o]);
                    assert forall|k: int| 0 <= k < ns[o].decls.len() implies all.contains(
                        #[trigger] ns[o].decls[k],
                    ) by {
                        assert(ds.contains(ns[o].decls[k]));
                    }
                }
            }
            assert forall|k: int| 0 <= k < all.len() implies exists|e: int|
                0 <= e < after.len() && (#[trigger] after[e]).decls.contains(#[trigger] all[k]) by {
                if k < ds.len() {
                    assert(all[k] == ds[k]);
                    let e = choose|e: int|
                        0 <= e < ns.len() && (#[trigger] ns[e]).decls.contains(ds[k]);
                    let n = if e < at {
                        e
                    } else {
                        e + 1
                    };
                    assert(after[n] == ns[e]);
                    assert(after[n].decls.contains(all[k]));
                } else {
                    assert(after[at].decls.contains(all[k]));
                }
            }
        },
    }
}

/// The namespaces of an index stand in strictly ascending order, so each
/// stands once. Each entry holds declarations of the schema and of its own
/// namespace only, each once, and at least one; each declaration of the
/// schema stands in an entry.
pub proof fn lemma_by_namespace(ds: Seq<CombinatorView>)
    ensures
        namespaces_ascend(by_namespace(ds)),
        namespaces_hold(by_namespace(ds), ds),
        namespaces_cover(by_namespace(ds), ds),
    decreases ds.len(),
{
    if ds.len() > 0 {
        lemma_by_namespace(ds.drop_last());
        lemma_placed(by_namespace(ds.drop_last()), ds.drop_last(), ds.last());
        assert(ds.drop_last().push(ds.last()) =~= ds);
    }
}

/// Whether the names of the result types stand in ascending order, and no
/// result type stands twice.
pub open spec fn groups_ascend(gs: Seq<TypeGroupView>) -> bool {
    forall|i: int, j: int|
        0 <= i < j < gs.len() ==> !before(gs[j].res.identns().name, gs[i].res.identns().name)
            && gs[i].res != gs[j].res
}

/// Whether each group holds declarations of `ds` and of its own result type
/// only, and at least one.
pub open spec fn groups_hold(gs: Seq<TypeGroupView>, ds: Seq<CombinatorView>) -> bool {
    forall|i: int|
        0 <= i < gs.len() ==> {
            &&& (#[trigger] gs[i]).decls.len() > 0
            &&& forall|k: int|
                0 <= k < gs[i].decls.len() ==> ds.contains(#[trigger] gs[i].decls[k])
                    && gs[i].decls[k].res == gs[i].res
        }
}

/// Whether each declaration of `ds` stands in a group.
pub open spec fn groups_cover(gs: Seq<TypeGroupView>, ds: Seq<CombinatorView>) -> bool {
    forall|k: int|
        0 <= k < ds.len() ==> exists|i: int|
            0 <= i < gs.len() && (#[trigger] gs[i]).decls.contains(#[trigger] ds[k])
}

/// `group_at` is the first group of the result type, and nothing where no
/// group is of it.
pub proof fn lemma_group_at(gs: Seq<TypeGroupView>, res: ResTypeView, from: int)
    requires
        0 <= from,
    ensures
        match group_at(gs, res, from) {
            Some(i) => from <= i < gs.len() && gs[i].res == res,
            None => forall|j: int| from <= j < gs.len() ==> (#[trigger] gs[j]).res != res,
        },
    decreases gs.len() - from,
{
    if from < gs.len() && gs[from].res != res {
        lemma_group_at(gs, res, from + 1);
    }
}

/// `group_slot` is the first group whose name the name comes before, or
/// the end.
pub proof fn lemma_group_slot(gs: Seq<TypeGroupView>, name: Seq<u8>, from: int)
    requires
        0 <= from <= gs.len(),
    ensures
        from <= group_slot(gs, name, from) <= gs.len(),
        forall|j: int|
            from <= j < group_slot(gs, name, from) ==> !before(
                name,
                (#[trigger] gs[j]).res.identns().name,
            ),
        group_slot(gs, name, from) < gs.len() ==> before(
            name,
            gs[group_slot(gs, name, from)].res.identns().name,
        ),
    decreases gs.len() - from,
{
    if from < gs.len() && !before(name, gs[from].res.identns().name) {
        lemma_group_slot(gs, name, from + 1);
    }
}

/// Adding a declaration keeps the order of the groups and what they hold,
/// and gives the declaration a group.
pub proof fn lemma_grouped(gs: Seq<TypeGroupView>, ds: Seq<CombinatorView>, d: CombinatorView)
    requires
        groups_ascend(gs),
        groups_hold(gs, ds),
        groups_cover(gs, ds),
    ensures
        groups_ascend(grouped(gs, d)),
        groups_hold(grouped(gs, d), ds.push(d)),
        groups_cover(grouped(gs, d), ds.push(d)),
{
    let name = d.res.identns().name;
    let after = grouped(gs, d);
    let all = ds.push(d);
    lemma_group_at(gs, d.res, 0);
    assert forall|x: CombinatorView| ds.contains(x) implies all.contains(x) by {
        let k = choose|k: int| 0 <= k < ds.len() && ds[k] == x;
        assert(all[k] == x);
    }
    assert(all[ds.len() as int] == d);
    match group_at(gs, d.res, 0) {
        Some(i) => {
            let grown = gs[i].decls.push(d);
            assert(after[i].decls == grown);
            assert(grown[gs[i].decls.len() as int] == d);
            assert forall|e: int| 0 <= e < after.len() implies {
                &&& (#[trigger] after[e]).decls.len() > 0
                &&& forall|k: int|
                    0 <= k < after[e].decls.len() ==> all.contains(#[trigger] after[e].decls[k])
                        && after[e].decls[k].res == after[e].res
            } by {
                if e == i {
                    assert forall|k: int| 0 <= k < grown.len() implies all.contains(
                        #[trigger] grown[k],
                    ) && grown[k].res == d.res by {
                        if k < gs[i].decls.len() {
                            assert(grown[k] == gs[i].decls[k]);
                            assert(ds.contains(gs[i].decls[k]));
                        }
                    }
                } else {
                    assert(after[e] == gs[e]);
                    assert forall|k: int| 0 <= k < gs[e].decls.len() implies all.contains(
                        #[trigger] gs[e].decls[k],
                    ) by {
                        assert(ds.contains(gs[e].decls[k]));
                    }
                }
            }
            assert forall|k: int| 0 <= k < all.len() implies exists|e: int|
                0 <= e < after.len() && (#[trigger] after[e]).decls.contains(#[trigger] all[k]) by {
                if k < ds.len() {
                    assert(all[k] == ds[k]);
                    let e = choose|e: int|
                        0 <= e < gs.len() && (#[trigger] gs[e]).decls.contains(ds[k]);
                    if e == i {
                        let at = choose|at: int|
                            0 <= at < gs[i].decls.len() && gs[i].decls[at] == ds[k];
                        assert(grown[at] == ds[k]);
                    }
                    assert(after[e].decls.contains(all[k]));
                } else {
                    assert(after[i].decls.contains(all[k]));
                }
            }
        },
        None => {
            let at = group_slot(gs, name, 0);
            lemma_group_slot(gs, name, 0);
            let fresh = TypeGroupView { res: d.res, decls: seq![d] };
            assert(after == gs.insert(at, fresh));
            assert forall|a: int, b: int| 0 <= a < b < after.len() implies !before(
                after[b].res.identns().name,
                after[a].res.identns().name,
            ) && after[a].res != after[b].res by {
                if b < at {
                } else if a > at {
                    assert(after[a] == gs[a - 1] && after[b] == gs[b - 1]);
                } else if a == at {
                    assert(after[b] == gs[b - 1]);
                    let other = gs[b - 1].res.identns().name;
                    if b - 1 == at {
                        lemma_before_asymmetric(name, other);
                    } else if before(other, name) {
                        lemma_before_transitive(other, name, gs[at].res.identns().name);
                    }
                } else if b == at {
                    assert(after[a] == gs[a]);
                } else {
                    assert(after[a] == gs[a] && after[b] == gs[b - 1]);
                }
            }
            assert(fresh.decls[0] == d);
            assert forall|e: int| 0 <= e < after.len() implies {
                &&& (#[trigger] after[e]).decls.len() > 0
                &&& forall|k: int|
                    0 <= k < after[e].decls.len() ==> all.contains(#[trigger] after[e].decls[k])
                        && after[e].decls[k].res == after[e].res
            } by {
                if e != at {
                    let o = if e < at {
                        e
                    } else {
                        e - 1
                    };
                    assert(after[e] == gs[o]);
                    assert forall|k: int| 0 <= k < gs[o].decls.len() implies all.contains(
                        #[trigger] gs[o].decls[k],
                    ) by {
                        assert(ds.contains(gs[o].decls[k]));
                    }
                }
            }
            assert forall|k: int| 0 <= k < all.len() implies exists|e: int|
                0 <= e < after.len() && (#[trigger] after[e]).decls.contains(#[trigger] all[k]) by {
                if k < ds.len() {
                    assert(all[k] == ds[k]);
                    let e = choose|e: int|
                        0 <= e < gs.len() && (#[trigger] gs[e]).decls.contains(ds[k]);
                    let n = if e < at {
                        e
                    } else {
                        e + 1
                    };
                    assert(after[n] == gs[e]);
                    assert(after[n].decls.contains(all[k]));
                } else {
                    assert(after[at].decls.contains(all[k]));
                }
            }
        },
    }
}

/// The result types of an index stand in ascending order of their names,
/// each once. Each group holds declarations of the list and of its own
/// result type only, and at least one; each declaration of the list stands
/// in a group. So the constructors that share a result type make up one sum
/// type.
pub proof fn lemma_by_result(ds: Seq<CombinatorView>)
    ensures
        groups_ascend(by_result(ds)),
        groups_hold(by_result(ds), ds),
        groups_cover(by_result(ds), ds),
    decreases ds.len(),
{
    if ds.len() > 0 {
        lemma_by_result(ds.drop_last());
        lemma_grouped(by_result(ds.drop_last()), ds.drop_last(), ds.last());
        assert(ds.drop_last().push(ds.last()) =~= ds);
    }
}

/// Two constructors of one result type make up one sum type with two
/// variants, in the order of the schema.
pub proof fn lemma_shared_result(a: CombinatorView, b: CombinatorView)
    requires
        a.res == b.res,
    ensures
        by_result(seq![a, b]) == seq![TypeGroupView { res: a.res, decls: seq![a, b] }],
{
    let one = seq![a];
    assert(seq![a, b].drop_last() =~= one);
    assert(one.drop_last() =~= Seq::<CombinatorView>::empty());
    assert(by_result(one.drop_last()) =~= Seq::<TypeGroupView>::empty());
    let first = by_result(one);
    assert(group_at(Seq::<TypeGroupView>::empty(), a.res, 0) is None);
    assert(first =~= seq![TypeGroupView { res: a.res, decls: seq![a] }]);
    assert(group_at(first, b.res, 0) == Some(0int));
    assert(seq![a].push(b) =~= seq![a, b]);
    assert(by_result(seq![a, b]) =~= seq![TypeGroupView { res: a.res, decls: seq![a, b] }]);
}

} // verus!
