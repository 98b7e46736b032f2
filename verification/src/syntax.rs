//! The concrete syntax tree that the rules inspect, and its construction from
//! a tree-sitter parse of Python source.
use vstd::prelude::*;
use vstd::utf8::*;

use crate::text::{bytes_eq, chars_of, str_eq};

verus! {

broadcast use {encode_utf8_valid_utf8, encode_utf8_decode_utf8, decode_utf8_encode_utf8};

#[verifier::external_type_specification]
#[verifier::external_body]
pub struct ExTsTree(tree_sitter::Tree);

#[verifier::external_type_specification]
#[verifier::external_body]
pub struct ExTsTreeCursor<'cursor>(tree_sitter::TreeCursor<'cursor>);

/// One node of a concrete syntax tree, with everything the rules read of it.
///
/// Positions follow tree-sitter: `line` is the 1-based line of the node's
/// first character and `col` its 0-based byte column; `start_byte` and
/// `end_byte` delimit the node's text in the UTF-8 source.
pub struct SyntaxNode {
    /// The node's grammar kind, such as `call` or `(`.
    pub kind: &'static str,
    /// The name of the field under which the parent holds this node, if any.
    pub field: Option<&'static str>,
    /// Whether the node stands for a named grammar rule (not a token literal).
    pub named: bool,
    pub line: usize,
    pub col: usize,
    pub start_byte: usize,
    pub end_byte: usize,
    /// All children in source order, named and anonymous.
    pub children: Vec<SyntaxNode>,
}

/// The text of bytes `start..end` of `src` when that range lies in `src` and
/// decodes as UTF-8.
pub open spec fn slice_text(src: Seq<u8>, start: int, end: int) -> Option<Seq<char>> {
    if 0 <= start <= end <= src.len() && valid_utf8(src.subrange(start, end)) {
        Some(decode_utf8(src.subrange(start, end)))
    } else {
        None
    }
}

/// The node's source text, when its byte range decodes.
pub open spec fn text_opt(n: SyntaxNode, src: Seq<u8>) -> Option<Seq<char>> {
    slice_text(src, n.start_byte as int, n.end_byte as int)
}

/// The node's source text, or the empty text when its byte range does not decode.
pub open spec fn text(n: SyntaxNode, src: Seq<u8>) -> Seq<char> {
    match text_opt(n, src) {
        Some(t) => t,
        None => Seq::empty(),
    }
}

pub open spec fn kind_is(n: SyntaxNode, k: Seq<char>) -> bool {
    n.kind@ == k
}

pub open spec fn has_field(n: SyntaxNode, f: Seq<char>) -> bool {
    n.field matches Some(name) && name@ == f
}

/// Index of the first child at or after `i` that the parent holds under field `f`.
pub open spec fn field_index_from(cs: Seq<SyntaxNode>, f: Seq<char>, i: int) -> Option<int>
    decreases cs.len() - i,
{
    if i < 0 || i >= cs.len() {
        None
    } else if has_field(cs[i], f) {
        Some(i)
    } else {
        field_index_from(cs, f, i + 1)
    }
}

/// The first child that `n` holds under field `f` (tree-sitter's `child_by_field_name`).
pub open spec fn field_child(n: SyntaxNode, f: Seq<char>) -> Option<SyntaxNode> {
    match field_index_from(n.children@, f, 0) {
        Some(i) => Some(n.children@[i]),
        None => None,
    }
}

pub proof fn lemma_field_index_from_bounds(cs: Seq<SyntaxNode>, f: Seq<char>, i: int)
    ensures
        field_index_from(cs, f, i) matches Some(j) ==> i <= j < cs.len() && has_field(cs[j], f),
    decreases cs.len() - i,
{
    if 0 <= i < cs.len() && !has_field(cs[i], f) {
        lemma_field_index_from_bounds(cs, f, i + 1);
    }
}

impl SyntaxNode {
    /// Whether the node's kind is `k`.
    pub fn kind_is(&self, k: &str) -> (r: bool)
        ensures
            r == kind_is(*self, k@),
    {
        str_eq(self.kind, k)
    }

    /// Index of the first child held under field `f`.
    pub fn field_index(&self, f: &str) -> (r: Option<usize>)
        ensures
            r matches Some(i) ==> field_index_from(self.children@, f@, 0) == Some(i as int)
                && i < self.children.len(),
            r is None ==> field_index_from(self.children@, f@, 0) is None,
    {
        let n = self.children.len();
        let mut i: usize = 0;
        while i < n
            invariant
                n == self.children.len(),
                0 <= i <= n,
                field_index_from(self.children@, f@, 0) == field_index_from(
                    self.children@,
                    f@,
                    i as int,
                ),
            decreases n - i,
        {
            let hit = match self.children[i].field {
                Some(name) => str_eq(name, f),
                None => false,
            };
            if hit {
                return Some(i);
            }
            i = i + 1;
        }
        None
    }

    /// The first child held under field `f`.
    pub fn field_child(&self, f: &str) -> (r: Option<&SyntaxNode>)
        ensures
            r matches Some(c) ==> field_child(*self, f@) == Some(*c),
            r is None ==> field_child(*self, f@) is None,
    {
        match self.field_index(f) {
            Some(i) => Some(&self.children[i]),
            None => None,
        }
    }

    /// The node's source text, when its byte range decodes as UTF-8.
    pub fn text_str<'a>(&self, src: &'a [u8]) -> (r: Option<&'a str>)
        ensures
            r matches Some(s) ==> text_opt(*self, src@) == Some(s@),
            r is None ==> text_opt(*self, src@) is None,
    {
        if self.start_byte <= self.end_byte && self.end_byte <= src.len() {
            let piece = &src[self.start_byte..self.end_byte];
            utf8_str(piece)
        } else {
            None
        }
    }

    /// The node's source text as characters, when its byte range decodes.
    pub fn text_chars(&self, src: &[u8]) -> (r: Option<Vec<char>>)
        ensures
            r matches Some(v) ==> text_opt(*self, src@) == Some(v@),
            r is None ==> text_opt(*self, src@) is None,
    {
        match self.text_str(src) {
            Some(s) => Some(chars_of(s)),
            None => None,
        }
    }

    /// The node's source text as characters, empty when its byte range does not decode.
    pub fn text_or_empty(&self, src: &[u8]) -> (r: Vec<char>)
        ensures
            r@ == text(*self, src@),
    {
        match self.text_chars(src) {
            Some(v) => v,
            None => Vec::new(),
        }
    }

    /// Whether the node's text is `lit`.
    pub fn text_is(&self, src: &[u8], lit: &str) -> (r: bool)
        ensures
            r == (text(*self, src@) == lit@),
    {
        if !(self.start_byte <= self.end_byte && self.end_byte <= src.len()) {
            proof {
                if lit@.len() == 0 {
                    assert(lit@ =~= Seq::<char>::empty());
                }
            }
            return lit.is_empty();
        }
        let piece = &src[self.start_byte..self.end_byte];
        let ghost sub = src@.subrange(self.start_byte as int, self.end_byte as int);
        assert(piece@ == sub);
        if lit.is_empty() {
            assert(lit@ =~= Seq::<char>::empty());
            let r = piece.len() == 0 || utf8_str(piece).is_none();
            proof {
                if piece.len() == 0 {
                    assert(sub =~= Seq::<u8>::empty());
                    assert(sub == encode_utf8(Seq::<char>::empty()));
                    assert(decode_utf8(encode_utf8(Seq::<char>::empty())) == Seq::<char>::empty());
                } else if valid_utf8(sub) {
                    assert(encode_utf8(decode_utf8(sub)) == sub);
                    if decode_utf8(sub).len() == 0 {
                        assert(decode_utf8(sub) =~= Seq::<char>::empty());
                        assert(encode_utf8(Seq::<char>::empty()) =~= Seq::<u8>::empty());
                    }
                }
            }
            return r;
        }
        let lb = lit.as_bytes();
        let same = bytes_eq(piece, lb);
        proof {
            if same {
                assert(sub == encode_utf8(lit@));
                assert(decode_utf8(encode_utf8(lit@)) == lit@);
            } else if valid_utf8(sub) && decode_utf8(sub) == lit@ {
                assert(encode_utf8(decode_utf8(sub)) == sub);
                assert(false);
            }
            if !valid_utf8(sub) {
                assert(text(*self, src@).len() == 0);
            }
        }
        same
    }
}

/// Calls `std::str::from_utf8` on `bytes`; `None` when they are not UTF-8.
/// The contract restates the documented behaviour: the call succeeds exactly
/// on valid UTF-8 and then reads the same characters.
#[verifier::external_body]
fn utf8_str(bytes: &[u8]) -> (r: Option<&str>)
    ensures
        r is Some <==> valid_utf8(bytes@),
        r matches Some(s) ==> s@ == decode_utf8(bytes@),
{
    std::str::from_utf8(bytes).ok()
}

// ---------------------------------------------------------------------------
// The tree-sitter parse.
//
// Tree-sitter numbers the nodes of a tree in pre-order, the root 0 (its
// "descendant index"); anonymous tokens count as nodes too. A parsed tree is
// read here as that listing, one plain record per node.
// ---------------------------------------------------------------------------

/// One node of a tree-sitter tree, as plain values.
pub struct NodeRow {
    pub kind: Seq<char>,
    /// The field under which the parent holds the node.
    pub field: Option<Seq<char>>,
    pub named: bool,
    /// 0-based row of the node's start.
    pub row: usize,
    /// 0-based byte column of the node's start.
    pub col: usize,
    pub start_byte: usize,
    pub end_byte: usize,
    /// The number of children, named and anonymous.
    pub child_count: usize,
}

/// One node of a tree-sitter tree as it is read through a cursor.
pub struct TsRow {
    pub kind: &'static str,
    pub field: Option<&'static str>,
    pub named: bool,
    pub row: usize,
    pub col: usize,
    pub start_byte: usize,
    pub end_byte: usize,
    pub child_count: usize,
}

pub open spec fn opt_str_view(o: Option<&'static str>) -> Option<Seq<char>> {
    match o {
        Some(s) => Some(s@),
        None => None,
    }
}

impl View for TsRow {
    type V = NodeRow;

    open spec fn view(&self) -> NodeRow {
        NodeRow {
            kind: self.kind@,
            field: opt_str_view(self.field),
            named: self.named,
            row: self.row,
            col: self.col,
            start_byte: self.start_byte,
            end_byte: self.end_byte,
            child_count: self.child_count,
        }
    }
}

/// The nodes, in pre-order, of the tree that tree-sitter's Python grammar
/// parses the UTF-8 text `source` into; `None` when the parser yields no tree.
pub uninterp spec fn python_parse(source: Seq<u8>) -> Option<Seq<NodeRow>>;

/// The nodes, in pre-order, that a tree holds.
pub uninterp spec fn tree_rows(t: tree_sitter::Tree) -> Seq<NodeRow>;

/// The nodes, in pre-order, of the tree that a cursor walks.
pub uninterp spec fn cursor_rows(c: tree_sitter::TreeCursor) -> Seq<NodeRow>;

/// Parses `source` with a new `tree_sitter::Parser` set to the grammar of
/// `tree_sitter_python::LANGUAGE` (`Parser::new`, `Parser::set_language`,
/// `Parser::parse` with no previous tree); `None` when the grammar is refused
/// or the parser yields no tree. The contract names the outcome: it depends
/// on the source alone, since no timeout or cancellation flag is set.
#[verifier::external_body]
fn ts_parse_python(source: &[u8]) -> (r: Option<tree_sitter::Tree>)
    ensures
        r is Some <==> python_parse(source@) is Some,
        r matches Some(t) ==> python_parse(source@) == Some(tree_rows(t)),
{
    let mut parser = tree_sitter::Parser::new();
    parser.set_language(&tree_sitter_python::LANGUAGE.into()).ok()?;
    parser.parse(source, None)
}

/// Calls `tree_sitter::Node::descendant_count` on the tree's root
/// (`Tree::root_node`): the number of nodes of the tree.
#[verifier::external_body]
fn ts_node_count(tree: &tree_sitter::Tree) -> (r: usize)
    ensures
        r == tree_rows(*tree).len(),
{
    tree.root_node().descendant_count()
}

/// Calls `tree_sitter::Tree::walk`: a cursor on the root, walking this tree.
#[verifier::external_body]
fn ts_tree_walk(tree: &tree_sitter::Tree) -> (r: tree_sitter::TreeCursor<'_>)
    ensures
        cursor_rows(r) == tree_rows(*tree),
{
    tree.walk()
}

/// Moves the cursor to node `i` of its tree (`TreeCursor::goto_descendant`)
/// and reads that node: `Node::kind`, `TreeCursor::field_name`,
/// `Node::is_named`, `Node::start_position`, `Node::start_byte`,
/// `Node::end_byte`, `Node::child_count`.
#[verifier::external_body]
fn ts_row(cursor: &mut tree_sitter::TreeCursor, i: usize) -> (r: TsRow)
    requires
        i < cursor_rows(*old(cursor)).len(),
    ensures
        cursor_rows(*final(cursor)) == cursor_rows(*old(cursor)),
        r@ == cursor_rows(*old(cursor))[i as int],
{
    cursor.goto_descendant(i);
    let n = cursor.node();
    let p = n.start_position();
    TsRow {
        kind: n.kind(),
        field: cursor.field_name(),
        named: n.is_named(),
        row: p.row,
        col: p.column,
        start_byte: n.start_byte(),
        end_byte: n.end_byte(),
        child_count: n.child_count(),
    }
}

/// The 1-based line of a 0-based row (saturating).
pub open spec fn line_of_row(row: usize) -> usize {
    if row < usize::MAX {
        (row + 1) as usize
    } else {
        row
    }
}

/// Where the `t`-th of the sibling subtrees that start at `j` begins, each
/// subtree read `f` levels deep.
pub open spec fn sibling_start(rows: Seq<NodeRow>, j: int, t: nat, f: nat) -> int
    decreases f, 2int, t,
{
    if t == 0 {
        j
    } else {
        subtree_end(rows, sibling_start(rows, j, (t - 1) as nat, f), f)
    }
}

/// How many of the `cc` children that start at `j` the listing holds: counting
/// from `t`, up to the first that would start past the end.
pub open spec fn children_len(rows: Seq<NodeRow>, j: int, cc: nat, f: nat, t: nat) -> nat
    decreases f, 3int, cc - t,
{
    if t >= cc || sibling_start(rows, j, t, f) >= rows.len() {
        t
    } else {
        children_len(rows, j, cc, f, t + 1)
    }
}

/// Where the subtree headed by node `i`, read `f` levels deep, ends.
pub open spec fn subtree_end(rows: Seq<NodeRow>, i: int, f: nat) -> int
    decreases f, 1int, 0int,
{
    if f == 0 || i < 0 || i >= rows.len() {
        i + 1
    } else {
        let f1 = (f - 1) as nat;
        sibling_start(rows, i + 1, children_len(rows, i + 1, rows[i].child_count as nat, f1, 0), f1)
    }
}

/// `n` is the tree headed by node `i` of `rows`, read `f` levels deep: its
/// fields are that node's, lines counted from 1, and its children are the
/// trees headed by the node's children.
pub open spec fn heads(n: SyntaxNode, rows: Seq<NodeRow>, i: int, f: nat) -> bool
    decreases f,
{
    &&& 0 <= i < rows.len()
    &&& n.kind@ == rows[i].kind
    &&& opt_str_view(n.field) == rows[i].field
    &&& n.named == rows[i].named
    &&& n.line == line_of_row(rows[i].row)
    &&& n.col == rows[i].col
    &&& n.start_byte == rows[i].start_byte
    &&& n.end_byte == rows[i].end_byte
    &&& if f == 0 {
        n.children@.len() == 0
    } else {
        let f1 = (f - 1) as nat;
        &&& n.children@.len() == children_len(rows, i + 1, rows[i].child_count as nat, f1, 0)
        &&& forall|t: int|
            0 <= t < n.children@.len() ==> heads(
                #[trigger] n.children@[t],
                rows,
                sibling_start(rows, i + 1, t as nat, f1),
                f1,
            )
    }
}

/// `a` and `b` are the same tree, node for node: every field reads the same.
pub open spec fn same_node(a: SyntaxNode, b: SyntaxNode) -> bool
    decreases a, 1int, 0int,
{
    &&& a.kind@ == b.kind@
    &&& opt_str_view(a.field) == opt_str_view(b.field)
    &&& a.named == b.named
    &&& a.line == b.line
    &&& a.col == b.col
    &&& a.start_byte == b.start_byte
    &&& a.end_byte == b.end_byte
    &&& a.children@.len() == b.children@.len()
    &&& same_children_from(a, b, 0)
}

/// The children `i..` of `a` and `b` are the same trees, position by position.
pub open spec fn same_children_from(a: SyntaxNode, b: SyntaxNode, i: int) -> bool
    decreases a, 0int, a.children@.len() - i,
{
    if 0 <= i < a.children@.len() {
        same_node(a.children@[i], b.children@[i]) && same_children_from(a, b, i + 1)
    } else {
        true
    }
}

proof fn lemma_same_children_from(a: SyntaxNode, b: SyntaxNode, i: int)
    requires
        0 <= i,
    ensures
        same_children_from(a, b, i) <==> forall|j: int|
            i <= j < a.children@.len() ==> #[trigger] same_node(a.children@[j], b.children@[j]),
    decreases a.children@.len() - i,
{
    if i < a.children@.len() {
        lemma_same_children_from(a, b, i + 1);
        if same_children_from(a, b, i) {
            assert forall|j: int| i <= j < a.children@.len() implies #[trigger] same_node(
                a.children@[j],
                b.children@[j],
            ) by {
                if j > i {
                    assert(same_children_from(a, b, i + 1));
                }
            }
        }
        if forall|j: int| i <= j < a.children@.len() ==> #[trigger] same_node(a.children@[j], b.children@[j]) {
            assert(same_node(a.children@[i], b.children@[i]));
            assert(same_children_from(a, b, i + 1));
        }
    }
}

/// Two optional nodes that are both absent or the same tree.
pub open spec fn same_opt(a: Option<SyntaxNode>, b: Option<SyntaxNode>) -> bool {
    match (a, b) {
        (None, None) => true,
        (Some(x), Some(y)) => same_node(x, y),
        _ => false,
    }
}

/// Two sequences of nodes, the same tree at each position.
pub open spec fn same_nodes(a: Seq<SyntaxNode>, b: Seq<SyntaxNode>) -> bool {
    &&& a.len() == b.len()
    &&& forall|i: int| 0 <= i < a.len() ==> #[trigger] same_node(a[i], b[i])
}

pub proof fn lemma_same_children(a: SyntaxNode, b: SyntaxNode)
    requires
        same_node(a, b),
    ensures
        same_nodes(a.children@, b.children@),
{
    lemma_same_children_from(a, b, 0);
}

pub proof fn lemma_same_field_index(a: Seq<SyntaxNode>, b: Seq<SyntaxNode>, f: Seq<char>, i: int)
    requires
        same_nodes(a, b),
    ensures
        field_index_from(a, f, i) == field_index_from(b, f, i),
    decreases a.len() - i,
{
    if 0 <= i < a.len() {
        assert(same_node(a[i], b[i]));
        lemma_same_field_index(a, b, f, i + 1);
    }
}

/// The same trees hold the same children under each field.
pub proof fn lemma_same_field_child(a: SyntaxNode, b: SyntaxNode, f: Seq<char>)
    requires
        same_node(a, b),
    ensures
        same_opt(field_child(a, f), field_child(b, f)),
{
    lemma_same_children(a, b);
    lemma_same_field_index(a.children@, b.children@, f, 0);
    lemma_field_index_from_bounds(a.children@, f, 0);
    match field_index_from(a.children@, f, 0) {
        Some(i) => {
            assert(same_node(a.children@[i], b.children@[i]));
        },
        None => {},
    }
}

/// Trees headed by the same node of one listing, read as deep, are the same.
pub proof fn lemma_heads_same(a: SyntaxNode, b: SyntaxNode, rows: Seq<NodeRow>, i: int, f: nat)
    requires
        heads(a, rows, i, f),
        heads(b, rows, i, f),
    ensures
        same_node(a, b),
    decreases f,
{
    if f > 0 {
        let f1 = (f - 1) as nat;
        assert forall|t: int| 0 <= t < a.children@.len() implies #[trigger] same_node(
            a.children@[t],
            b.children@[t],
        ) by {
            lemma_heads_same(a.children@[t], b.children@[t], rows, sibling_start(rows, i + 1, t as nat, f1), f1);
        }
    }
    lemma_same_children_from(a, b, 0);
}

/// Tree-sitter's Python grammar parses `source` into a tree.
pub open spec fn parses(source: Seq<char>) -> bool {
    python_parse(encode_utf8(source)) matches Some(rows) && rows.len() > 0
}

/// `t` is the syntax tree of `source`: the tree that tree-sitter's Python
/// grammar parses its UTF-8 bytes into, node for node.
pub open spec fn parsed_from(t: SyntaxNode, source: Seq<char>) -> bool {
    python_parse(encode_utf8(source)) matches Some(rows) && rows.len() > 0 && heads(
        t,
        rows,
        0,
        rows.len(),
    )
}

proof fn lemma_children_len(rows: Seq<NodeRow>, j: int, cc: nat, f: nat, t: nat, k: nat)
    requires
        t <= k <= cc,
        forall|u: nat| t <= u < k ==> #[trigger] sibling_start(rows, j, u, f) < rows.len(),
        k == cc || sibling_start(rows, j, k, f) >= rows.len(),
    ensures
        children_len(rows, j, cc, f, t) == k,
    decreases k - t,
{
    if t < k {
        assert(sibling_start(rows, j, t, f) < rows.len());
        lemma_children_len(rows, j, cc, f, t + 1, k);
    }
}

/// Builds the tree headed by node `i` of the cursor's tree, `fuel` levels
/// deep at most, and the index just past its subtree.
fn build_node(cursor: &mut tree_sitter::TreeCursor, i: usize, count: usize, fuel: usize) -> (r: (SyntaxNode, usize))
    requires
        i < count,
        count == cursor_rows(*old(cursor)).len(),
    ensures
        cursor_rows(*final(cursor)) == cursor_rows(*old(cursor)),
        heads(r.0, cursor_rows(*old(cursor)), i as int, fuel as nat),
        r.1 == subtree_end(cursor_rows(*old(cursor)), i as int, fuel as nat),
        i < r.1 <= count,
    decreases fuel,
{
    let ghost rows = cursor_rows(*cursor);
    let row = ts_row(cursor, i);
    let mut children: Vec<SyntaxNode> = Vec::new();
    let mut j = i + 1;
    if fuel > 0 {
        let ghost f1 = (fuel - 1) as nat;
        let cc = row.child_count;
        let mut k: usize = 0;
        while k < cc && j < count
            invariant
                cursor_rows(*cursor) == rows,
                count == rows.len(),
                i < j <= count,
                k <= cc,
                cc == rows[i as int].child_count,
                f1 == fuel - 1,
                fuel > 0,
                j == sibling_start(rows, i + 1, k as nat, f1),
                children@.len() == k,
                forall|u: nat| u < k ==> #[trigger] sibling_start(rows, i + 1, u, f1) < rows.len(),
                forall|t: int|
                    0 <= t < k ==> heads(#[trigger] children@[t], rows, sibling_start(rows, i + 1, t as nat, f1), f1),
            decreases cc - k,
        {
            let (child, e) = build_node(cursor, j, count, fuel - 1);
            assert(sibling_start(rows, i + 1, (k + 1) as nat, f1) == e);
            children.push(child);
            j = e;
            k = k + 1;
        }
        proof {
            lemma_children_len(rows, i + 1, cc as nat, f1, 0, k as nat);
        }
    }
    let r = SyntaxNode {
        kind: row.kind,
        field: row.field,
        named: row.named,
        line: row.row.saturating_add(1),
        col: row.col,
        start_byte: row.start_byte,
        end_byte: row.end_byte,
        children,
    };
    (r, j)
}

/// Parses Python source with tree-sitter into its syntax tree; `None` when
/// the parser yields no tree. Tree-sitter's 0-based rows become 1-based lines.
pub fn parse_python(source: &str) -> (r: Option<SyntaxNode>)
    ensures
        r is Some <==> parses(source@),
        r matches Some(t) ==> parsed_from(t, source@),
{
    let bytes = source.as_bytes();
    match ts_parse_python(bytes) {
        None => None,
        Some(tree) => {
            let count = ts_node_count(&tree);
            if count == 0 {
                return None;
            }
            let mut cursor = ts_tree_walk(&tree);
            let (root, _) = build_node(&mut cursor, 0, count, count);
            Some(root)
        },
    }
}

} // verus!
