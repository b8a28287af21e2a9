//! The concrete syntax tree the parser builds, held in a `syntree` builder.
//! The builder is outside the library: these declarations say what the
//! parser relies on of it.

use crate::token::TokenKind;
use vstd::prelude::*;

verus! {

/// A builder of a concrete syntax tree whose nodes are token kinds, with the
/// checkpoints taken on it, in the order they were taken. A checkpoint stays
/// with the builder it was taken on, and is named by its position in that
/// order.
#[verifier::external_body]
pub struct CstBuilder {
    builder: syntree::Builder<TokenKind, syntree::FlavorDefault>,
    checkpoints: Vec<syntree::Checkpoint<syntree::pointer::PointerUsize>>,
}

/// A finished concrete syntax tree.
#[verifier::external_body]
pub struct Cst {
    pub tree: syntree::Tree<TokenKind, syntree::FlavorDefault>,
}

/// The kinds of the nodes of a builder, in the order they were created.
pub uninterp spec fn builder_kinds(b: CstBuilder) -> Seq<TokenKind>;

/// The builder's open nodes, outermost first, each by its position in the
/// order of creation.
pub uninterp spec fn builder_open(b: CstBuilder) -> Seq<nat>;

/// The builder's cursor: where the next token starts.
pub uninterp spec fn builder_cursor(b: CstBuilder) -> nat;

/// The nodes of a builder in the order of the tree (each node before its
/// children, and the children in order), each with its kind and its depth:
/// 0 for a node at the top, one more than its parent's for any other.
pub uninterp spec fn builder_nodes(b: CstBuilder) -> Seq<(TokenKind, nat)>;

/// The checkpoints taken on a builder, in the order they were taken: for
/// each, the open node it was taken inside, if any, and the place it stands
/// at in the order of the tree; `None` for one that a later `close_at` left
/// standing inside the wrapping node, which is not to be used again.
pub uninterp spec fn builder_marks(b: CstBuilder) -> Seq<Option<(Option<nat>, nat)>>;

/// The kinds of the nodes of a tree, in the order they were created.
pub uninterp spec fn tree_kinds(t: Cst) -> Seq<TokenKind>;

/// The nodes of a tree in its order (each node before its children, and the
/// children in order), each with its kind and its depth: 0 for a node at the
/// top, one more than its parent's for any other.
pub uninterp spec fn tree_nodes(t: Cst) -> Seq<(TokenKind, nat)>;

/// Nodes one level deeper.
pub open spec fn deepened(ns: Seq<(TokenKind, nat)>) -> Seq<(TokenKind, nat)> {
    ns.map_values(|n: (TokenKind, nat)| (n.0, n.1 + 1))
}

/// The nodes `ns` with the ones from place `p` on wrapped in a new node of
/// the given kind at the given depth.
pub open spec fn wrap_nodes(ns: Seq<(TokenKind, nat)>, p: nat, kind: TokenKind, depth: nat) -> Seq<
    (TokenKind, nat),
> {
    ns.take(p as int).push((kind, depth)) + deepened(ns.skip(p as int))
}

/// The checkpoints after a wrapping from place `p`: those at a later place
/// stand inside the wrapping node now, and are not to be used again.
pub open spec fn marks_after_wrap(ms: Seq<Option<(Option<nat>, nat)>>, p: nat) -> Seq<
    Option<(Option<nat>, nat)>,
> {
    ms.map_values(
        |m: Option<(Option<nat>, nat)>|
            match m {
                Some((_, q)) => if q > p {
                    None
                } else {
                    m
                },
                None => None,
            },
    )
}

/// The innermost open node, if any.
pub open spec fn innermost(open: Seq<nat>) -> Option<nat> {
    if open.len() == 0 {
        None
    } else {
        Some(open.last())
    }
}

/// An empty builder, with no checkpoint. (`syntree::Builder::new`)
#[verifier::external_body]
pub fn builder_new() -> (b: CstBuilder)
    ensures
        builder_kinds(b) == Seq::<TokenKind>::empty(),
        builder_nodes(b) == Seq::<(TokenKind, nat)>::empty(),
        builder_open(b) == Seq::<nat>::empty(),
        builder_cursor(b) == 0,
        builder_marks(b) == Seq::<Option<(Option<nat>, nat)>>::empty(),
{
    CstBuilder { builder: syntree::Builder::new(), checkpoints: Vec::new() }
}

/// Opens a node of the given kind inside the innermost open node; the tree
/// is stored in a vector, which never holds enough nodes to run out of
/// node pointers. (`syntree::Builder::open`)
#[verifier::external_body]
pub fn builder_open_node(b: &mut CstBuilder, kind: TokenKind)
    ensures
        builder_kinds(*final(b)) == builder_kinds(*old(b)).push(kind),
        builder_nodes(*final(b)) == builder_nodes(*old(b)).push((kind, builder_open(*old(b)).len())),
        builder_open(*final(b)) == builder_open(*old(b)).push(builder_kinds(*old(b)).len()),
        builder_cursor(*final(b)) == builder_cursor(*old(b)),
        builder_marks(*final(b)) == builder_marks(*old(b)),
{
    b.builder.open(kind).unwrap();
}

/// Closes the innermost open node; fails, changing nothing, when no node is
/// open. (`syntree::Builder::close`)
#[verifier::external_body]
pub fn builder_close(b: &mut CstBuilder) -> (ok: bool)
    ensures
        ok == (builder_open(*old(b)).len() > 0),
        ok ==> builder_open(*final(b)) == builder_open(*old(b)).drop_last(),
        !ok ==> builder_open(*final(b)) == builder_open(*old(b)),
        builder_kinds(*final(b)) == builder_kinds(*old(b)),
        builder_nodes(*final(b)) == builder_nodes(*old(b)),
        builder_cursor(*final(b)) == builder_cursor(*old(b)),
        builder_marks(*final(b)) == builder_marks(*old(b)),
{
    b.builder.close().is_ok()
}

/// Adds a token of the given kind and length at the cursor and moves the
/// cursor past it; fails, changing nothing, when the cursor would pass the
/// largest `u32`. (`syntree::Builder::token`)
#[verifier::external_body]
pub fn builder_token(b: &mut CstBuilder, kind: TokenKind, len: usize) -> (ok: bool)
    ensures
        ok == (builder_cursor(*old(b)) + len <= u32::MAX),
        ok ==> builder_kinds(*final(b)) == builder_kinds(*old(b)).push(kind),
        ok ==> builder_nodes(*final(b)) == builder_nodes(*old(b)).push((kind, builder_open(*old(b)).len())),
        ok ==> builder_cursor(*final(b)) == builder_cursor(*old(b)) + len,
        !ok ==> builder_kinds(*final(b)) == builder_kinds(*old(b)),
        !ok ==> builder_nodes(*final(b)) == builder_nodes(*old(b)),
        !ok ==> builder_cursor(*final(b)) == builder_cursor(*old(b)),
        builder_open(*final(b)) == builder_open(*old(b)),
        builder_marks(*final(b)) == builder_marks(*old(b)),
{
    b.builder.token(kind, len).is_ok()
}

/// Takes a checkpoint at the place of the next node, inside the innermost
/// open node, and keeps it with the builder; returns its position among the
/// builder's checkpoints. (`syntree::Builder::checkpoint`)
#[verifier::external_body]
pub fn builder_checkpoint(b: &mut CstBuilder) -> (i: usize)
    ensures
        i == builder_marks(*old(b)).len(),
        builder_marks(*final(b)) == builder_marks(*old(b)).push(
            Some((innermost(builder_open(*old(b))), builder_nodes(*old(b)).len())),
        ),
        builder_kinds(*final(b)) == builder_kinds(*old(b)),
        builder_nodes(*final(b)) == builder_nodes(*old(b)),
        builder_open(*final(b)) == builder_open(*old(b)),
        builder_cursor(*final(b)) == builder_cursor(*old(b)),
{
    let c = b.builder.checkpoint().unwrap();
    let i = b.checkpoints.len();
    b.checkpoints.push(c);
    i
}

/// Wraps every node made since the `i`-th checkpoint of the builder in a new
/// node of the given kind, which takes the checkpoint's place in the tree and
/// is last in the order of creation; fails, changing nothing, when the
/// checkpoint was not taken inside the innermost open node.
///
/// The nodes made since the checkpoint are those from its place on in the
/// order of the tree: they all stand inside the innermost open node, which
/// is still open, and no wrapping from an earlier place has moved the
/// checkpoint's node since (that would have made it `None`). A checkpoint
/// taken at the same place inside the same open node shares its state with
/// this one in syntree, and is moved with it to the new node, which has the
/// same place; one taken at the same place inside another open node was
/// taken inside a node that is closed since, so `close_at` on it fails.
/// (`syntree::Builder::close_at`)
#[verifier::external_body]
pub fn builder_close_at(b: &mut CstBuilder, i: usize, kind: TokenKind) -> (ok: bool)
    requires
        i < builder_marks(*old(b)).len(),
        builder_marks(*old(b))[i as int] is Some,
    ensures
        ok == ((builder_marks(*old(b))[i as int]->0).0 == innermost(builder_open(*old(b)))),
        ok ==> builder_kinds(*final(b)) == builder_kinds(*old(b)).push(kind),
        ok ==> builder_nodes(*final(b)) == wrap_nodes(
            builder_nodes(*old(b)),
            (builder_marks(*old(b))[i as int]->0).1,
            kind,
            builder_open(*old(b)).len(),
        ),
        ok ==> builder_marks(*final(b)) == marks_after_wrap(
            builder_marks(*old(b)),
            (builder_marks(*old(b))[i as int]->0).1,
        ),
        !ok ==> builder_kinds(*final(b)) == builder_kinds(*old(b)),
        !ok ==> builder_nodes(*final(b)) == builder_nodes(*old(b)),
        !ok ==> builder_marks(*final(b)) == builder_marks(*old(b)),
        builder_open(*final(b)) == builder_open(*old(b)),
        builder_cursor(*final(b)) == builder_cursor(*old(b)),
{
    b.builder.close_at(&b.checkpoints[i], kind).is_ok()
}

/// The finished tree; fails when a node is still open. (`syntree::Builder::build`)
#[verifier::external_body]
pub fn builder_build(b: CstBuilder) -> (t: Option<Cst>)
    ensures
        t is Some == (builder_open(b).len() == 0),
        t matches Some(tree) ==> tree_kinds(tree) == builder_kinds(b),
        t matches Some(tree) ==> tree_nodes(tree) == builder_nodes(b),
{
    b.builder.build().ok().map(|tree| Cst { tree })
}

} // verus!
