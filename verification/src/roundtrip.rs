//! What is written can be read again: the reader gives back the tree that
//! the writer was given.

use crate::notation::{
    document, is_inline, is_name_part, is_name_start, is_space, item_at, items_at, name_end, print,
    print_tail, quote, ron_string, ron_text, skip_space, text_end, unquote, value_at, Tree,
};
use crate::text::chars_of;
use vstd::prelude::*;

verus! {

/// A string survives being written when the text that `ron` writes for it
/// stands between two quotes, has no quote inside that ends it early, and
/// is read by `ron` as the string again.
pub open spec fn survives(s: Seq<char>) -> bool {
    let t = ron_text(s);
    &&& t.len() >= 2
    &&& t[0] == '"'
    &&& text_end(t, 1) == Some(t.len() - 1)
    &&& ron_string(t) == Some(s)
}

/// A name: a letter or an underscore, then letters, digits and
/// underscores.
pub open spec fn valid_name(n: Seq<char>) -> bool {
    &&& n.len() > 0
    &&& is_name_start(n[0])
    &&& forall|i: int| 0 <= i < n.len() ==> is_name_part(#[trigger] n[i])
}

pub open spec fn all_spaces(ind: Seq<char>) -> bool {
    forall|i: int| 0 <= i < ind.len() ==> #[trigger] ind[i] == ' '
}

/// The trees that can be written and read again: their strings survive,
/// their names are names, no form is empty, and a field stands only where
/// an item can stand.
pub open spec fn printable(t: Tree) -> bool
    decreases t,
{
    match t {
        Tree::Text(s) => survives(s),
        Tree::Name(n) => valid_name(n),
        Tree::List(items) => forall|i: int|
            0 <= i < items.len() ==> printable(#[trigger] items[i]),
        Tree::Form(n, items) => valid_name(n) && items.len() > 0 && forall|i: int|
            0 <= i < items.len() ==> printable(#[trigger] items[i]),
        Tree::Field(l, v) => valid_name(l) && printable(*v) && !(*v is Field),
    }
}

/// The text `x` stands in `s` at `p`.
pub open spec fn at(s: Seq<char>, p: int, x: Seq<char>) -> bool {
    0 <= p && p + x.len() <= s.len() && s.subrange(p, p + x.len()) == x
}

/// What may follow a value: the end of the text, a comma or a closing
/// round bracket.
pub open spec fn ends(s: Seq<char>, q: int) -> bool {
    q == s.len() || (0 <= q < s.len() && (s[q] == ',' || s[q] == ')'))
}

/// What a written tree begins with.
pub open spec fn opening(c: char) -> bool {
    c == '"' || c == '[' || is_name_start(c)
}

proof fn lemma_at_char(s: Seq<char>, p: int, x: Seq<char>, i: int)
    requires
        at(s, p, x),
        0 <= i < x.len(),
    ensures
        s[p + i] == x[i],
{
    assert(s.subrange(p, p + x.len())[i] == s[p + i]);
}

proof fn lemma_at_split(s: Seq<char>, p: int, a: Seq<char>, b: Seq<char>)
    requires
        at(s, p, a + b),
    ensures
        at(s, p, a),
        at(s, p + a.len(), b),
{
    let whole = s.subrange(p, p + (a + b).len());
    assert(s.subrange(p, p + a.len()) =~= a) by {
        assert forall|i: int| 0 <= i < a.len() implies s.subrange(p, p + a.len())[i] == a[i] by {
            assert(whole[i] == (a + b)[i]);
        }
    }
    assert(s.subrange(p + a.len(), p + a.len() + b.len()) =~= b) by {
        assert forall|i: int| 0 <= i < b.len() implies s.subrange(
            p + a.len(),
            p + a.len() + b.len(),
        )[i] == b[i] by {
            assert(whole[a.len() + i] == (a + b)[a.len() + i]);
        }
    }
}

proof fn lemma_skip_run(s: Seq<char>, i: int, j: int)
    requires
        0 <= i <= j <= s.len(),
        forall|k: int| i <= k < j ==> is_space(#[trigger] s[k]),
        j == s.len() || (!is_space(s[j]) && s[j] != '/'),
    ensures
        skip_space(s, i) == j,
    decreases j - i,
{
    if i < j {
        assert(is_space(s[i]));
        lemma_skip_run(s, i + 1, j);
    }
}

proof fn lemma_name_run(s: Seq<char>, i: int, j: int)
    requires
        0 <= i <= j <= s.len(),
        forall|k: int| i <= k < j ==> is_name_part(#[trigger] s[k]),
        j == s.len() || !is_name_part(s[j]),
    ensures
        name_end(s, i) == j,
    decreases j - i,
{
    if i < j {
        assert(is_name_part(s[i]));
        lemma_name_run(s, i + 1, j);
    }
}

/// A name that stands in a text, with no character of a name after it, is
/// passed over as a whole.
proof fn lemma_name_at(s: Seq<char>, p: int, n: Seq<char>)
    requires
        at(s, p, n),
        valid_name(n),
        p + n.len() == s.len() || !is_name_part(s[p + n.len()]),
    ensures
        name_end(s, p) == p + n.len(),
        is_name_start(s[p]),
        s.subrange(p, p + n.len()) == n,
{
    assert forall|k: int| p <= k < p + n.len() implies is_name_part(#[trigger] s[k]) by {
        lemma_at_char(s, p, n, k - p);
        assert(is_name_part(n[k - p]));
    }
    lemma_name_run(s, p, p + n.len());
    lemma_at_char(s, p, n, 0);
}

/// The quote that closes a string is found where the string stands inside
/// a longer text, too.
proof fn lemma_text_end_at(s: Seq<char>, p: int, r: Seq<char>, i: int, e: int)
    requires
        at(s, p, r),
        1 <= i <= r.len(),
        text_end(r, i) == Some(e),
    ensures
        text_end(s, p + i) == Some(p + e),
        i <= e < r.len(),
    decreases r.len() - i,
{
    if i < r.len() {
        lemma_at_char(s, p, r, i);
        if r[i] == '"' {
        } else if r[i] == '\\' {
            if i + 1 < r.len() {
                lemma_text_end_at(s, p, r, i + 2, e);
            }
        } else {
            lemma_text_end_at(s, p, r, i + 1, e);
        }
    }
}

/// Every written tree begins with a quote, a square bracket or the first
/// letter of a name.
pub proof fn lemma_opening(t: Tree, ind: Seq<char>)
    requires
        printable(t),
    ensures
        print(t, ind).len() > 0,
        opening(print(t, ind)[0]),
{
    reveal_strlit("[]");
    reveal_strlit("[");
    match t {
        Tree::Text(s) => {},
        Tree::Name(n) => {},
        Tree::List(items) => {},
        Tree::Form(n, items) => {},
        Tree::Field(l, v) => {},
    }
}

proof fn lemma_text_back(s: Seq<char>, p: int, x: Seq<char>)
    requires
        survives(x),
        at(s, p, ron_text(x)),
    ensures
        value_at(s, p) == Some((Tree::Text(x), p + ron_text(x).len())),
        item_at(s, p) == value_at(s, p),
{
    let r = ron_text(x);
    lemma_at_char(s, p, r, 0);
    lemma_text_end_at(s, p, r, 1, r.len() - 1);
    assert(s[p] == '"');
    assert(!is_name_start(s[p]));
}

proof fn lemma_name_back(s: Seq<char>, p: int, n: Seq<char>)
    requires
        valid_name(n),
        at(s, p, n),
        ends(s, p + n.len()),
    ensures
        value_at(s, p) == Some((Tree::Name(n), p + n.len())),
        item_at(s, p) == value_at(s, p),
{
    let e = p + n.len();
    lemma_name_at(s, p, n);
    lemma_skip_run(s, e, e);
    assert(s[p] != '"' && s[p] != '[' && s[p] != '(');
}

proof fn lemma_list_back(s: Seq<char>, p: int, t: Tree, items: Seq<Tree>, ind: Seq<char>)
    requires
        t == Tree::List(items),
        printable(t),
        all_spaces(ind),
        at(s, p, print(t, ind)),
    ensures
        value_at(s, p) == Some((t, p + print(t, ind).len())),
        item_at(s, p) == value_at(s, p),
    decreases t, 0int,
{
    reveal_strlit("[]");
    reveal_strlit("[");
    let text = print(t, ind);
    lemma_at_char(s, p, text, 0);
    assert(s[p] == '[');
    assert(!is_name_start(s[p]));
    if items.len() == 0 {
        lemma_at_char(s, p, text, 1);
        lemma_skip_run(s, p + 1, p + 1);
        assert(items =~= Seq::<Tree>::empty());
    } else {
        lemma_at_split(s, p, "["@, print_tail(items, ind, 0, ']'));
        lemma_tail_back(s, p + 1, items, ind, 0, ']');
        assert(items.skip(0) =~= items);
    }
}

proof fn lemma_inline_back(
    s: Seq<char>,
    p: int,
    t: Tree,
    n: Seq<char>,
    items: Seq<Tree>,
    ind: Seq<char>,
)
    requires
        t == Tree::Form(n, items),
        is_inline(items),
        printable(t),
        all_spaces(ind),
        at(s, p, print(t, ind)),
    ensures
        items_at(s, p + n.len() + 1, ')') == Some((items, p + print(t, ind).len())),
        at(s, p, n),
        s[p + n.len()] == '(',
    decreases t, 0int,
{
    reveal_strlit("(");
    reveal_strlit(")");
    let e = p + n.len();
    let inner = print(items[0], ind);
    assert(print(t, ind) == n + "("@ + inner + ")"@);
    lemma_at_split(s, p, n + "("@ + inner, ")"@);
    lemma_at_split(s, p, n + "("@, inner);
    lemma_at_split(s, p, n, "("@);
    lemma_at_char(s, e, "("@, 0);
    let b = e + 1 + inner.len();
    lemma_at_char(s, b, ")"@, 0);
    lemma_opening(items[0], ind);
    lemma_at_char(s, e + 1, inner, 0);
    lemma_skip_run(s, e + 1, e + 1);
    lemma_read_back(s, e + 1, items[0], ind);
    lemma_skip_run(s, b, b);
    assert(seq![items[0]] =~= items);
}

proof fn lemma_lines_back(
    s: Seq<char>,
    p: int,
    t: Tree,
    n: Seq<char>,
    items: Seq<Tree>,
    ind: Seq<char>,
)
    requires
        t == Tree::Form(n, items),
        !is_inline(items),
        printable(t),
        all_spaces(ind),
        at(s, p, print(t, ind)),
    ensures
        items_at(s, p + n.len() + 1, ')') == Some((items, p + print(t, ind).len())),
        at(s, p, n),
        s[p + n.len()] == '(',
    decreases t, 0int,
{
    reveal_strlit("(");
    let e = p + n.len();
    let tail = print_tail(items, ind, 0, ')');
    assert(print(t, ind) == n + "("@ + tail);
    lemma_at_split(s, p, n + "("@, tail);
    lemma_at_split(s, p, n, "("@);
    lemma_at_char(s, e, "("@, 0);
    lemma_tail_back(s, e + 1, items, ind, 0, ')');
    assert(items.skip(0) =~= items);
}

proof fn lemma_form_back(s: Seq<char>, p: int, n: Seq<char>, items: Seq<Tree>, end: int)
    requires
        valid_name(n),
        at(s, p, n),
        p + n.len() < s.len(),
        s[p + n.len()] == '(',
        items_at(s, p + n.len() + 1, ')') == Some((items, end)),
    ensures
        value_at(s, p) == Some((Tree::Form(n, items), end)),
        item_at(s, p) == value_at(s, p),
{
    let e = p + n.len();
    lemma_name_at(s, p, n);
    lemma_skip_run(s, e, e);
    assert(s[p] != '"' && s[p] != '[' && s[p] != '(');
}

proof fn lemma_field_back(s: Seq<char>, p: int, t: Tree, l: Seq<char>, v: Tree, ind: Seq<char>)
    requires
        t == Tree::Field(l, Box::new(v)),
        printable(t),
        all_spaces(ind),
        at(s, p, print(t, ind)),
        ends(s, p + print(t, ind).len()),
    ensures
        item_at(s, p) == Some((t, p + print(t, ind).len())),
    decreases t, 0int,
{
    reveal_strlit(": ");
    let e = p + l.len();
    let inner = print(v, ind);
    assert(print(t, ind) == l + ": "@ + inner);
    lemma_at_split(s, p, l + ": "@, inner);
    lemma_at_split(s, p, l, ": "@);
    lemma_at_char(s, e, ": "@, 0);
    lemma_at_char(s, e, ": "@, 1);
    lemma_name_at(s, p, l);
    lemma_skip_run(s, e, e);
    lemma_opening(v, ind);
    lemma_at_char(s, e + 2, inner, 0);
    lemma_skip_run(s, e + 1, e + 2);
    lemma_read_back(s, e + 2, v, ind);
}

/// The reader gives back the tree that was written, where the text of the
/// tree stands in `s` at `p` and a comma, a closing bracket or the end of
/// the text follows it.
pub proof fn lemma_read_back(s: Seq<char>, p: int, t: Tree, ind: Seq<char>)
    requires
        printable(t),
        all_spaces(ind),
        at(s, p, print(t, ind)),
        ends(s, p + print(t, ind).len()),
    ensures
        item_at(s, p) == Some((t, p + print(t, ind).len())),
        !(t is Field) ==> value_at(s, p) == Some((t, p + print(t, ind).len())),
    decreases t, 1int,
{
    match t {
        Tree::Text(x) => {
            lemma_text_back(s, p, x);
        },
        Tree::Name(n) => {
            lemma_name_back(s, p, n);
        },
        Tree::List(items) => {
            lemma_list_back(s, p, t, items, ind);
        },
        Tree::Form(n, items) => {
            if is_inline(items) {
                lemma_inline_back(s, p, t, n, items, ind);
            } else {
                lemma_lines_back(s, p, t, n, items, ind);
            }
            lemma_form_back(s, p, n, items, p + print(t, ind).len());
        },
        Tree::Field(l, v) => {
            lemma_field_back(s, p, t, l, *v, ind);
        },
    }
}

/// The reader gives back the items whose lines stand in `s` at `q`.
pub proof fn lemma_tail_back(
    s: Seq<char>,
    q: int,
    items: Seq<Tree>,
    ind: Seq<char>,
    k: int,
    close: char,
)
    requires
        forall|i: int| 0 <= i < items.len() ==> printable(#[trigger] items[i]),
        all_spaces(ind),
        0 <= k <= items.len(),
        close == ')' || close == ']',
        at(s, q, print_tail(items, ind, k, close)),
    ensures
        items_at(s, q, close) == Some(
            (items.skip(k), q + print_tail(items, ind, k, close).len()),
        ),
    decreases items, items.len() - k,
{
    reveal_strlit("\n");
    reveal_strlit("    ");
    reveal_strlit(",");
    let text = print_tail(items, ind, k, close);
    if k >= items.len() {
        let j = q + 1 + ind.len();
        assert(text == "\n"@ + ind + seq![close]);
        assert forall|i: int| q <= i < j implies is_space(#[trigger] s[i]) by {
            lemma_at_char(s, q, text, i - q);
        }
        lemma_at_char(s, q, text, j - q);
        lemma_skip_run(s, q, j);
        assert(items.skip(k) =~= Seq::<Tree>::empty());
    } else {
        let deeper = ind + "    "@;
        let inner = print(items[k], deeper);
        let rest = print_tail(items, ind, k + 1, close);
        let head = "\n"@ + ind + "    "@;
        assert(text == head + inner + ","@ + rest);
        let a = q + head.len();
        let b = a + inner.len();
        lemma_at_split(s, q, head + inner + ","@, rest);
        lemma_at_split(s, q, head + inner, ","@);
        lemma_at_split(s, q, head, inner);
        assert(all_spaces(deeper));
        lemma_opening(items[k], deeper);
        lemma_at_char(s, a, inner, 0);
        assert forall|i: int| q <= i < a implies is_space(#[trigger] s[i]) by {
            lemma_at_char(s, q, head, i - q);
        }
        lemma_skip_run(s, q, a);
        lemma_at_char(s, b, ","@, 0);
        lemma_read_back(s, a, items[k], deeper);
        lemma_skip_run(s, b, b);
        lemma_tail_back(s, b + 1, items, ind, k + 1, close);
        assert(seq![items[k]] + items.skip(k + 1) =~= items.skip(k));
    }
}

/// A tree that is written as a whole text is read as that tree.
pub proof fn lemma_document_back(t: Tree)
    requires
        printable(t),
        !(t is Field),
    ensures
        document(print(t, Seq::empty())) == Some(t),
{
    let s = print(t, Seq::empty());
    lemma_opening(t, Seq::empty());
    assert(s.subrange(0, s.len() as int) =~= s);
    lemma_skip_run(s, 0, 0);
    lemma_read_back(s, 0, t, Seq::empty());
    lemma_skip_run(s, s.len() as int, s.len() as int);
}

/// Whether a string survives being written: it is written, and what was
/// written is read again.
pub fn check_survives(line: &str) -> (r: bool)
    ensures
        r == survives(line@),
{
    let quoted = quote(line);
    let chars = chars_of(quoted.as_str());
    if chars.len() < 2 || chars[0] != '"' {
        return false;
    }
    match crate::notation::closing_quote(&chars, 1) {
        Some(e) => {
            if e != chars.len() - 1 {
                return false;
            }
        },
        None => {
            return false;
        },
    }
    match unquote(quoted.as_str()) {
        Some(back) => crate::config::command::form::same(back.as_str(), line),
        None => false,
    }
}

} // verus!
