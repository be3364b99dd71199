//! What publishing a plugin version writes to the repository's database,
//! as a list of operations for the caller to run in one transaction.

use std::cmp::Ordering;
use vstd::prelude::*;
use crate::data::error::Error;
use crate::data::plugin::PluginData;
use crate::data::version::{parse_version, version_order, version_text};
use crate::repo::entities::{plan_plugin_change, Category, Plugin, PluginChange, PluginVersion, Tag};

verus! {

/// One write to the repository's database.
pub enum DbOp {
    /// Insert the category unless it exists.
    EnsureCategory(Category),
    /// Insert the tag unless it exists.
    EnsureTag(Tag),
    /// Insert the plugin's row.
    InsertPlugin(Plugin),
    /// Update the plugin's row (name and latest version).
    UpdatePlugin(Plugin),
    /// Remove the links from the plugin to its tags.
    ClearTags(String),
    /// Remove the links from the plugin to its categories.
    ClearCategories(String),
    /// Link the plugin (first) to a category (second).
    LinkCategory(String, String),
    /// Link the plugin (first) to a tag (second).
    LinkTag(String, String),
    /// Insert the published version unless it exists.
    EnsureVersion(PluginVersion),
}

/// What an operation does, over plain texts.
pub enum OpView {
    EnsureCategory(Seq<char>),
    EnsureTag(Seq<char>),
    InsertPlugin(Seq<char>, Seq<char>, Seq<char>),
    UpdatePlugin(Seq<char>, Seq<char>, Seq<char>),
    ClearTags(Seq<char>),
    ClearCategories(Seq<char>),
    LinkCategory(Seq<char>, Seq<char>),
    LinkTag(Seq<char>, Seq<char>),
    EnsureVersion(Seq<char>, Seq<char>),
}

impl View for DbOp {
    type V = OpView;

    open spec fn view(&self) -> OpView {
        match self {
            DbOp::EnsureCategory(c) => OpView::EnsureCategory(c.name@),
            DbOp::EnsureTag(t) => OpView::EnsureTag(t.name@),
            DbOp::InsertPlugin(p) => OpView::InsertPlugin(p.id@, p.name@, p.last_version@),
            DbOp::UpdatePlugin(p) => OpView::UpdatePlugin(p.id@, p.name@, p.last_version@),
            DbOp::ClearTags(id) => OpView::ClearTags(id@),
            DbOp::ClearCategories(id) => OpView::ClearCategories(id@),
            DbOp::LinkCategory(id, c) => OpView::LinkCategory(id@, c@),
            DbOp::LinkTag(id, t) => OpView::LinkTag(id@, t@),
            DbOp::EnsureVersion(v) => OpView::EnsureVersion(v.id@, v.version@),
        }
    }
}

/// The views of a list of operations.
pub open spec fn op_views(ops: Seq<DbOp>) -> Seq<OpView> {
    ops.map_values(|o: DbOp| o@)
}

/// The texts of an optional list of strings, none where it is absent.
pub open spec fn names_of(v: Option<Vec<String>>) -> Seq<Seq<char>> {
    match v {
        Some(l) => l@.map_values(|s: String| s@),
        None => Seq::empty(),
    }
}

/// The operation that is made once per category or tag.
#[derive(Clone, Copy)]
pub enum NameOp {
    EnsureCategory,
    EnsureTag,
    LinkCategory,
    LinkTag,
}

/// The operation of kind `kind` for the name `n` (of plugin `id`, for the
/// links).
pub open spec fn name_op(kind: NameOp, id: Seq<char>, n: Seq<char>) -> OpView {
    match kind {
        NameOp::EnsureCategory => OpView::EnsureCategory(n),
        NameOp::EnsureTag => OpView::EnsureTag(n),
        NameOp::LinkCategory => OpView::LinkCategory(id, n),
        NameOp::LinkTag => OpView::LinkTag(id, n),
    }
}

/// The operations of kind `kind`, one per name, in the names' order.
pub open spec fn name_ops(kind: NameOp, id: Seq<char>, names: Seq<Seq<char>>) -> Seq<OpView> {
    names.map_values(|n: Seq<char>| name_op(kind, id, n))
}

/// The operations that publishing a plugin runs, given its identifier,
/// name, version text, categories and tags, and how its row changes: first
/// every category and tag is made to exist; then the row is inserted, or
/// updated with the plugin's tags and categories linked anew, or left; last
/// the version is made to exist.
pub open spec fn publish_ops(
    id: Seq<char>,
    name: Seq<char>,
    version: Seq<char>,
    cats: Seq<Seq<char>>,
    tags: Seq<Seq<char>>,
    change: PluginChange,
) -> Seq<OpView> {
    name_ops(NameOp::EnsureCategory, id, cats) + name_ops(NameOp::EnsureTag, id, tags) + match change {
        PluginChange::Insert => seq![OpView::InsertPlugin(id, name, version)],
        PluginChange::Update => seq![
            OpView::UpdatePlugin(id, name, version),
            OpView::ClearTags(id),
            OpView::ClearCategories(id),
        ] + name_ops(NameOp::LinkCategory, id, cats) + name_ops(NameOp::LinkTag, id, tags),
        PluginChange::Keep => Seq::empty(),
    } + seq![OpView::EnsureVersion(id, version)]
}

/// An operation that writes the plugin's row or its links.
pub open spec fn touches_plugin_row(o: OpView) -> bool {
    o is InsertPlugin || o is UpdatePlugin || o is ClearTags || o is ClearCategories
        || o is LinkCategory || o is LinkTag
}

/// Links and clears of links are written only where the plugin's row is
/// updated, and a row that is kept is not written at all: the operations
/// are then only the ensured categories and tags and the ensured version.
pub proof fn lemma_publish_ops_touch_row_only_on_change(
    id: Seq<char>,
    name: Seq<char>,
    version: Seq<char>,
    cats: Seq<Seq<char>>,
    tags: Seq<Seq<char>>,
    change: PluginChange,
)
    ensures
        forall|i: int|
            0 <= i < publish_ops(id, name, version, cats, tags, change).len() && (#[trigger] publish_ops(
                id,
                name,
                version,
                cats,
                tags,
                change,
            )[i] is LinkCategory || publish_ops(id, name, version, cats, tags, change)[i] is LinkTag
                || publish_ops(id, name, version, cats, tags, change)[i] is ClearTags
                || publish_ops(id, name, version, cats, tags, change)[i] is ClearCategories
                || publish_ops(id, name, version, cats, tags, change)[i] is UpdatePlugin)
                ==> change == PluginChange::Update,
        change == PluginChange::Keep ==> forall|i: int|
            0 <= i < publish_ops(id, name, version, cats, tags, change).len() ==> !touches_plugin_row(
                #[trigger] publish_ops(id, name, version, cats, tags, change)[i],
            ),
        change == PluginChange::Keep ==> publish_ops(id, name, version, cats, tags, change).len()
            == cats.len() + tags.len() + 1,
{
    let ops = publish_ops(id, name, version, cats, tags, change);
    let a = name_ops(NameOp::EnsureCategory, id, cats);
    let b = name_ops(NameOp::EnsureTag, id, tags);
    let ev = seq![OpView::EnsureVersion(id, version)];
    assert forall|i: int| 0 <= i < a.len() implies #[trigger] a[i] is EnsureCategory by {}
    assert forall|i: int| 0 <= i < b.len() implies #[trigger] b[i] is EnsureTag by {}
    if change != PluginChange::Update {
        let m = match change {
            PluginChange::Insert => seq![OpView::InsertPlugin(id, name, version)],
            _ => Seq::<OpView>::empty(),
        };
        assert(ops =~= a + b + m + ev);
        assert forall|i: int| 0 <= i < ops.len() implies !(#[trigger] ops[i] is LinkCategory
            || ops[i] is LinkTag || ops[i] is ClearTags || ops[i] is ClearCategories
            || ops[i] is UpdatePlugin) && (change == PluginChange::Keep ==> !touches_plugin_row(
            ops[i],
        )) by {
            if i < a.len() {
                assert(ops[i] == a[i]);
            } else if i < a.len() + b.len() {
                assert(ops[i] == b[i - a.len()]);
            } else if i < a.len() + b.len() + m.len() {
                assert(ops[i] == m[i - a.len() - b.len()]);
            } else {
                assert(ops[i] == ev[i - a.len() - b.len() - m.len()]);
            }
        }
    }
}

/// The plan in order: each category made to exist, then each tag; for an
/// update, the row updated, the plugin's tag links and category links
/// cleared, then a link to each category and to each tag; for an insert,
/// the row inserted; last, the version made to exist.
pub proof fn lemma_publish_ops_order(
    id: Seq<char>,
    name: Seq<char>,
    version: Seq<char>,
    cats: Seq<Seq<char>>,
    tags: Seq<Seq<char>>,
    change: PluginChange,
)
    ensures
        ({
            let ops = publish_ops(id, name, version, cats, tags, change);
            let c = cats.len() as int;
            let t = tags.len() as int;
            &&& ops.len() >= c + t + 1
            &&& ops.last() == OpView::EnsureVersion(id, version)
            &&& forall|i: int| 0 <= i < c ==> ops[i] == OpView::EnsureCategory(#[trigger] cats[i])
            &&& forall|i: int| 0 <= i < t ==> ops[c + i] == OpView::EnsureTag(#[trigger] tags[i])
            &&& change == PluginChange::Insert ==> ops.len() == c + t + 2 && ops[c + t]
                == OpView::InsertPlugin(id, name, version)
            &&& change == PluginChange::Update ==> {
                &&& ops.len() == 2 * c + 2 * t + 4
                &&& ops[c + t] == OpView::UpdatePlugin(id, name, version)
                &&& ops[c + t + 1] == OpView::ClearTags(id)
                &&& ops[c + t + 2] == OpView::ClearCategories(id)
                &&& forall|i: int|
                    0 <= i < c ==> ops[c + t + 3 + i] == OpView::LinkCategory(id, #[trigger] cats[i])
                &&& forall|i: int|
                    0 <= i < t ==> ops[2 * c + t + 3 + i] == OpView::LinkTag(id, #[trigger] tags[i])
            }
        }),
{
    let ops = publish_ops(id, name, version, cats, tags, change);
    let c = cats.len() as int;
    let t = tags.len() as int;
    let a = name_ops(NameOp::EnsureCategory, id, cats);
    let b = name_ops(NameOp::EnsureTag, id, tags);
    let ev = seq![OpView::EnsureVersion(id, version)];
    let m = match change {
        PluginChange::Insert => seq![OpView::InsertPlugin(id, name, version)],
        PluginChange::Update => seq![
            OpView::UpdatePlugin(id, name, version),
            OpView::ClearTags(id),
            OpView::ClearCategories(id),
        ] + name_ops(NameOp::LinkCategory, id, cats) + name_ops(NameOp::LinkTag, id, tags),
        PluginChange::Keep => Seq::empty(),
    };
    assert(ops =~= a + b + m + ev);
    assert forall|i: int| 0 <= i < c implies ops[i] == OpView::EnsureCategory(#[trigger] cats[i]) by {
        assert(ops[i] == a[i]);
    }
    assert forall|i: int| 0 <= i < t implies ops[c + i] == OpView::EnsureTag(#[trigger] tags[i]) by {
        assert(ops[c + i] == b[i]);
    }
    if change == PluginChange::Update {
        let lc = name_ops(NameOp::LinkCategory, id, cats);
        let lt = name_ops(NameOp::LinkTag, id, tags);
        assert(ops[c + t] == m[0]);
        assert(ops[c + t + 1] == m[1]);
        assert(ops[c + t + 2] == m[2]);
        assert forall|i: int| 0 <= i < c implies ops[c + t + 3 + i] == OpView::LinkCategory(
            id,
            #[trigger] cats[i],
        ) by {
            assert(ops[c + t + 3 + i] == m[3 + i]);
            assert(m[3 + i] == lc[i]);
        }
        assert forall|i: int| 0 <= i < t implies ops[2 * c + t + 3 + i] == OpView::LinkTag(
            id,
            #[trigger] tags[i],
        ) by {
            assert(ops[2 * c + t + 3 + i] == m[3 + c + i]);
            assert(m[3 + c + i] == lt[i]);
        }
    }
    if change == PluginChange::Insert {
        assert(ops[c + t] == m[0]);
    }
}

/// A copy of an optional list of names, empty where it is absent.
fn names(v: &Option<Vec<String>>) -> (res: Vec<String>)
    ensures
        res@.map_values(|s: String| s@) == names_of(*v),
{
    match v {
        Some(l) => {
            let mut res: Vec<String> = Vec::new();
            let mut i: usize = 0;
            while i < l.len()
                invariant
                    i <= l.len(),
                    res@.map_values(|s: String| s@) == l@.take(i as int).map_values(|s: String| s@),
                decreases l.len() - i,
            {
                let ghost before = res@;
                let c = l[i].clone();
                res.push(c);
                assert(res@ == before.push(c));
                assert(res@.map_values(|s: String| s@) =~= before.map_values(|s: String| s@).push(
                    l@[i as int]@,
                ));
                assert(l@.take(i + 1).map_values(|s: String| s@) =~= l@.take(i as int).map_values(
                    |s: String| s@,
                ).push(l@[i as int]@));
                i = i + 1;
            }
            assert(l@.take(l.len() as int) == l@);
            res
        },
        None => Vec::new(),
    }
}

/// Appends the operation of kind `kind` for every name, in order.
fn push_name_ops(ops: &mut Vec<DbOp>, kind: NameOp, id: &String, names: &Vec<String>)
    ensures
        op_views(final(ops)@) == op_views(old(ops)@) + name_ops(
            kind,
            id@,
            names@.map_values(|s: String| s@),
        ),
{
    let mut i: usize = 0;
    while i < names.len()
        invariant
            i <= names.len(),
            op_views(ops@) == op_views(old(ops)@) + name_ops(
                kind,
                id@,
                names@.take(i as int).map_values(|s: String| s@),
            ),
        decreases names.len() - i,
    {
        let ghost before = ops@;
        let op = match kind {
            NameOp::EnsureCategory => DbOp::EnsureCategory(Category::new(names[i].as_str())),
            NameOp::EnsureTag => DbOp::EnsureTag(Tag::new(names[i].as_str())),
            NameOp::LinkCategory => DbOp::LinkCategory(id.clone(), names[i].clone()),
            NameOp::LinkTag => DbOp::LinkTag(id.clone(), names[i].clone()),
        };
        assert(op@ == name_op(kind, id@, names@[i as int]@));
        ops.push(op);
        assert(op_views(ops@) =~= op_views(before).push(name_op(kind, id@, names@[i as int]@)));
        assert(name_ops(kind, id@, names@.take(i + 1).map_values(|s: String| s@)) =~= name_ops(
            kind,
            id@,
            names@.take(i as int).map_values(|s: String| s@),
        ).push(name_op(kind, id@, names@[i as int]@)));
        i = i + 1;
    }
    assert(names@.take(names.len() as int) == names@);
}

/// The operations that publishing the plugin that `data` describes runs,
/// given the stored text of its latest version where it has a row, by
/// `publish_ops`; an error where that text is no valid version.
pub fn publish_plan(data: &PluginData, stored_last_version: Option<&str>) -> (res: Result<
    Vec<DbOp>,
    Error,
>)
    ensures
        match stored_last_version {
            Some(s) if parse_version(s@) is Err => res == Err::<Vec<DbOp>, Error>(
                parse_version(s@)->Err_0,
            ),
            _ => res matches Ok(ops) && op_views(ops@) == publish_ops(
                data.id@,
                data.name@,
                version_text(data.version),
                names_of(data.categories),
                names_of(data.tags),
                match stored_last_version {
                    None => PluginChange::Insert,
                    Some(s) => if version_order(parse_version(s@)->Ok_0, data.version)
                        == Ordering::Less {
                        PluginChange::Update
                    } else {
                        PluginChange::Keep
                    },
                },
            ),
        },
{
    let change = plan_plugin_change(stored_last_version, &data.version)?;
    let cats = names(&data.categories);
    let tags = names(&data.tags);
    let mut ops: Vec<DbOp> = Vec::new();
    push_name_ops(&mut ops, NameOp::EnsureCategory, &data.id, &cats);
    push_name_ops(&mut ops, NameOp::EnsureTag, &data.id, &tags);
    let ghost prefix = op_views(ops@);
    let ghost id = data.id@;
    let ghost name = data.name@;
    let ghost vt = version_text(data.version);
    let ghost cs = names_of(data.categories);
    let ghost ts = names_of(data.tags);
    assert(prefix == name_ops(NameOp::EnsureCategory, id, cs) + name_ops(NameOp::EnsureTag, id, ts));
    let ghost middle: Seq<OpView>;
    match change {
        PluginChange::Insert => {
            ops.push(DbOp::InsertPlugin(Plugin::new(data.id.as_str(), data.name.as_str(), &data.version)));
            proof {
                middle = seq![OpView::InsertPlugin(id, name, vt)];
            }
            assert(op_views(ops@) =~= prefix + middle);
        },
        PluginChange::Update => {
            ops.push(DbOp::UpdatePlugin(Plugin::new(data.id.as_str(), data.name.as_str(), &data.version)));
            ops.push(DbOp::ClearTags(data.id.clone()));
            ops.push(DbOp::ClearCategories(data.id.clone()));
            assert(op_views(ops@) =~= prefix + seq![
                OpView::UpdatePlugin(id, name, vt),
                OpView::ClearTags(id),
                OpView::ClearCategories(id),
            ]);
            push_name_ops(&mut ops, NameOp::LinkCategory, &data.id, &cats);
            push_name_ops(&mut ops, NameOp::LinkTag, &data.id, &tags);
            proof {
                middle = seq![
                    OpView::UpdatePlugin(id, name, vt),
                    OpView::ClearTags(id),
                    OpView::ClearCategories(id),
                ] + name_ops(NameOp::LinkCategory, id, cs) + name_ops(NameOp::LinkTag, id, ts);
            }
            assert(op_views(ops@) =~= prefix + middle);
        },
        PluginChange::Keep => {
            proof {
                middle = Seq::empty();
            }
            assert(op_views(ops@) =~= prefix + middle);
        },
    }
    let ghost before = ops@;
    ops.push(DbOp::EnsureVersion(PluginVersion::new(data.id.as_str(), &data.version)));
    assert(op_views(ops@) =~= op_views(before).push(OpView::EnsureVersion(id, vt)));
    assert(op_views(ops@) =~= prefix + middle + seq![OpView::EnsureVersion(id, vt)]);
    assert(op_views(ops@) =~= publish_ops(
        data.id@,
        data.name@,
        version_text(data.version),
        names_of(data.categories),
        names_of(data.tags),
        change,
    ));
    Ok(ops)
}

} // verus!
