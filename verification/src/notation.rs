//! A small reader for the bracketed notation that commands and settings are
//! written in: quoted strings, `[lists]`, bare names, `name(forms)` and
//! `label: value` fields, separated by spaces and commas.
//!
//! Quoted strings are written and read by the `ron` crate; everything around
//! them is read here.

use crate::text::string_of;
use vstd::prelude::*;
use vstd::string::StringExecFns;

verus! {

/// The text that `ron` writes for the string `s`.
pub uninterp spec fn ron_text(s: Seq<char>) -> Seq<char>;

/// The string that `ron` reads `text` as, where it reads it as a string.
pub uninterp spec fn ron_string(text: Seq<char>) -> Option<Seq<char>>;

/// Calls `ron::ser::to_string` on a string slice. The serializer writes a
/// string into a buffer in memory, between double quotes and with its
/// characters escaped, and has no failing step on that path: the call
/// returns the text, whatever the string is.
#[verifier::external_body]
fn write_string(s: &str) -> (out: Option<String>)
    ensures
        out is Some,
        out matches Some(t) ==> t@ == ron_text(s@),
{
    ron::ser::to_string(s).ok()
}

/// Calls `ron::de::from_str` for a `String`: the string that the text
/// denotes, or nothing where `ron` reports an error. Whether a text
/// denotes a string, and which, is for `ron` to say.
#[verifier::external_body]
fn read_string(text: &str) -> (out: Option<String>)
    ensures
        out matches Some(t) ==> ron_string(text@) == Some(t@),
        out is None ==> ron_string(text@) is None,
{
    ron::de::from_str::<String>(text).ok()
}

/// The quoted form of `s`.
pub fn quote(s: &str) -> (out: String)
    ensures
        out@ == ron_text(s@),
{
    match write_string(s) {
        Some(t) => t,
        None => String::new(),
    }
}

/// The string that a quoted text stands for.
pub fn unquote(text: &str) -> (out: Option<String>)
    ensures
        out matches Some(t) ==> ron_string(text@) == Some(t@),
        out is None ==> ron_string(text@) is None,
{
    read_string(text)
}

/// What a piece of notation denotes.
pub ghost enum Tree {
    Text(Seq<char>),
    List(Seq<Tree>),
    Name(Seq<char>),
    Form(Seq<char>, Seq<Tree>),
    Field(Seq<char>, Box<Tree>),
}

/// A piece of notation, read.
#[derive(Debug)]
pub enum Node {
    /// A quoted string.
    Text(String),
    /// `[a, b]`
    List(Vec<Node>),
    /// A bare name.
    Name(String),
    /// `name(a, b)`; the name is empty for `(a, b)`.
    Form(String, Vec<Node>),
    /// `label: value`, inside a form.
    Field(String, Box<Node>),
}

impl Node {
    pub open spec fn view(&self) -> Tree
        decreases self,
    {
        match self {
            Node::Text(t) => Tree::Text(t@),
            Node::List(items) => Tree::List(
                Seq::new(
                    items@.len(),
                    |i: int|
                        if 0 <= i < items@.len() {
                            items@[i].view()
                        } else {
                            Tree::Name(Seq::empty())
                        },
                ),
            ),
            Node::Name(n) => Tree::Name(n@),
            Node::Form(n, items) => Tree::Form(
                n@,
                Seq::new(
                    items@.len(),
                    |i: int|
                        if 0 <= i < items@.len() {
                            items@[i].view()
                        } else {
                            Tree::Name(Seq::empty())
                        },
                ),
            ),
            Node::Field(l, v) => Tree::Field(l@, Box::new(v.view())),
        }
    }
}

/// What a list of nodes denotes.
pub open spec fn trees(items: Seq<Node>) -> Seq<Tree> {
    Seq::new(items.len(), |i: int| items[i]@)
}

pub proof fn lemma_list_view(items: Vec<Node>)
    ensures
        Node::List(items)@ == Tree::List(trees(items@)),
{
    assert(Node::List(items)@->List_0 =~= trees(items@));
}

pub proof fn lemma_form_view(name: String, items: Vec<Node>)
    ensures
        Node::Form(name, items)@ == Tree::Form(name@, trees(items@)),
{
    assert(Node::Form(name, items)@->Form_1 =~= trees(items@));
}

pub open spec fn is_space(c: char) -> bool {
    c == ' ' || c == '\t' || c == '\n' || c == '\r'
}

pub open spec fn is_name_start(c: char) -> bool {
    ('a' <= c && c <= 'z') || ('A' <= c && c <= 'Z') || c == '_'
}

pub open spec fn is_name_part(c: char) -> bool {
    is_name_start(c) || ('0' <= c && c <= '9')
}

/// The place at or after `i` where the line that holds `i` ends: that of
/// the next newline, or the end of the text.
pub open spec fn line_end(s: Seq<char>, i: int) -> int
    decreases s.len() - i,
{
    if 0 <= i < s.len() && s[i] != '\n' {
        line_end(s, i + 1)
    } else {
        i
    }
}

/// The place after the `*/` that closes a comment, from `i` inside it on,
/// where `depth` further comments are open inside it.
pub open spec fn comment_end(s: Seq<char>, i: int, depth: nat) -> Option<int>
    decreases s.len() - i,
{
    if i < 0 || i + 1 >= s.len() {
        None
    } else if s[i] == '*' && s[i + 1] == '/' {
        if depth == 0 {
            Some(i + 2)
        } else {
            comment_end(s, i + 2, (depth - 1) as nat)
        }
    } else if s[i] == '/' && s[i + 1] == '*' {
        comment_end(s, i + 2, depth + 1)
    } else {
        comment_end(s, i + 1, depth)
    }
}

/// The first place at or after `i` that holds neither a space nor a
/// comment: comments run from `//` to the end of the line, and from `/*`
/// to the `*/` that belongs to it.
pub open spec fn skip_space(s: Seq<char>, i: int) -> int
    decreases s.len() - i,
{
    if i < 0 || i >= s.len() {
        i
    } else if is_space(s[i]) {
        skip_space(s, i + 1)
    } else if s[i] == '/' && i + 1 < s.len() && s[i + 1] == '/' {
        let e = line_end(s, i + 2);
        if e <= i || e > s.len() {
            i
        } else {
            skip_space(s, e)
        }
    } else if s[i] == '/' && i + 1 < s.len() && s[i + 1] == '*' {
        match comment_end(s, i + 2, 0) {
            Some(e) => if e <= i || e > s.len() {
                i
            } else {
                skip_space(s, e)
            },
            None => i,
        }
    } else {
        i
    }
}

/// The first place at or after `i` that holds no character of a name.
pub open spec fn name_end(s: Seq<char>, i: int) -> int
    decreases s.len() - i,
{
    if 0 <= i < s.len() && is_name_part(s[i]) {
        name_end(s, i + 1)
    } else {
        i
    }
}

/// The place of the quote that closes a string whose content begins at `i`:
/// the first quote that no backslash stands before.
pub open spec fn text_end(s: Seq<char>, i: int) -> Option<int>
    decreases s.len() - i,
{
    if i < 0 || i >= s.len() {
        None
    } else if s[i] == '"' {
        Some(i)
    } else if s[i] == '\\' {
        if i + 1 < s.len() {
            text_end(s, i + 2)
        } else {
            None
        }
    } else {
        text_end(s, i + 1)
    }
}

/// Passing over the characters of a name never goes back, nor past the end.
pub proof fn lemma_name_end_bounds(s: Seq<char>, i: int)
    requires
        0 <= i <= s.len(),
    ensures
        i <= name_end(s, i) <= s.len(),
    decreases s.len() - i,
{
    if i < s.len() && is_name_part(s[i]) {
        lemma_name_end_bounds(s, i + 1);
    }
}

/// The value that begins at `i`, and the place after it.
pub open spec fn value_at(s: Seq<char>, i: int) -> Option<(Tree, int)>
    decreases s.len() - i, 1int,
{
    if i < 0 || i >= s.len() {
        None
    } else if s[i] == '"' {
        match text_end(s, i + 1) {
            Some(e) => match ron_string(s.subrange(i, e + 1)) {
                Some(t) => Some((Tree::Text(t), e + 1)),
                None => None,
            },
            None => None,
        }
    } else if s[i] == '[' {
        match items_at(s, i + 1, ']') {
            Some((items, n)) => Some((Tree::List(items), n)),
            None => None,
        }
    } else if s[i] == '(' {
        match items_at(s, i + 1, ')') {
            Some((items, n)) => Some((Tree::Form(Seq::empty(), items), n)),
            None => None,
        }
    } else if is_name_start(s[i]) {
        let e = name_end(s, i);
        let k = skip_space(s, e);
        if i < e && e <= k < s.len() && s[k] == '(' {
            match items_at(s, k + 1, ')') {
                Some((items, n)) => Some((Tree::Form(s.subrange(i, e), items), n)),
                None => None,
            }
        } else {
            Some((Tree::Name(s.subrange(i, e)), e))
        }
    } else {
        None
    }
}

/// The item that begins at `i`: a field where a name and a colon stand
/// there, else a value.
pub open spec fn item_at(s: Seq<char>, i: int) -> Option<(Tree, int)>
    decreases s.len() - i, 2int,
{
    if i < 0 || i >= s.len() {
        None
    } else {
        let e = name_end(s, i);
        let k = skip_space(s, e);
        if is_name_start(s[i]) && i < e && e <= k < s.len() && s[k] == ':' {
            let v = skip_space(s, k + 1);
            if v <= k || v > s.len() {
                None
            } else {
                match value_at(s, v) {
                    Some((value, n)) => Some((Tree::Field(s.subrange(i, e), Box::new(value)), n)),
                    None => None,
                }
            }
        } else {
            value_at(s, i)
        }
    }
}

/// The items from `i` up to the closing bracket, separated by commas, and
/// the place after that bracket. A comma may follow the last item.
pub open spec fn items_at(s: Seq<char>, i: int, close: char) -> Option<(Seq<Tree>, int)>
    decreases s.len() - i, 3int,
{
    let j = skip_space(s, i);
    if i < 0 || j < i || j >= s.len() {
        None
    } else if s[j] == close {
        Some((Seq::empty(), j + 1))
    } else {
        match item_at(s, j) {
            None => None,
            Some((item, k)) => {
                let c = skip_space(s, k);
                if k <= j || c < k || c >= s.len() {
                    None
                } else if s[c] == ',' {
                    match items_at(s, c + 1, close) {
                        Some((rest, n)) => Some((seq![item] + rest, n)),
                        None => None,
                    }
                } else if s[c] == close {
                    Some((seq![item], c + 1))
                } else {
                    None
                }
            },
        }
    }
}

/// What a whole text denotes: one value with nothing but space around it.
pub open spec fn document(s: Seq<char>) -> Option<Tree> {
    match value_at(s, skip_space(s, 0)) {
        Some((tree, n)) => if skip_space(s, n) == s.len() {
            Some(tree)
        } else {
            None
        },
        None => None,
    }
}

fn space(c: char) -> (r: bool)
    ensures
        r == is_space(c),
{
    c == ' ' || c == '\t' || c == '\n' || c == '\r'
}

fn name_start(c: char) -> (r: bool)
    ensures
        r == is_name_start(c),
{
    ('a' <= c && c <= 'z') || ('A' <= c && c <= 'Z') || c == '_'
}

fn name_part(c: char) -> (r: bool)
    ensures
        r == is_name_part(c),
{
    name_start(c) || ('0' <= c && c <= '9')
}

/// Finds the end of the line that holds `i`.
pub fn end_of_line(s: &Vec<char>, i: usize) -> (e: usize)
    requires
        i <= s.len(),
    ensures
        e == line_end(s@, i as int),
        i <= e <= s.len(),
{
    let mut e: usize = i;
    while e < s.len() && s[e] != '\n'
        invariant
            i <= e <= s.len(),
            line_end(s@, i as int) == line_end(s@, e as int),
        decreases s.len() - e,
    {
        e = e + 1;
    }
    e
}

/// Finds the end of the comment that `i` lies in.
fn end_of_comment(s: &Vec<char>, i: usize) -> (r: Option<usize>)
    requires
        i <= s.len(),
    ensures
        r matches Some(e) ==> comment_end(s@, i as int, 0) == Some(e as int) && i < e <= s.len(),
        r is None ==> comment_end(s@, i as int, 0) is None,
{
    let mut j: usize = i;
    let mut depth: usize = 0;
    while s.len() - j >= 2
        invariant
            i <= j <= s.len(),
            depth <= j - i,
            comment_end(s@, i as int, 0) == comment_end(s@, j as int, depth as nat),
        decreases s.len() - j,
    {
        if s[j] == '*' && s[j + 1] == '/' {
            if depth == 0 {
                return Some(j + 2);
            }
            depth = depth - 1;
            j = j + 2;
        } else if s[j] == '/' && s[j + 1] == '*' {
            depth = depth + 1;
            j = j + 2;
        } else {
            j = j + 1;
        }
    }
    None
}

/// Passes over spaces and comments.
pub fn after_space(s: &Vec<char>, i: usize) -> (j: usize)
    requires
        i <= s.len(),
    ensures
        j == skip_space(s@, i as int),
        i <= j <= s.len(),
{
    let mut j: usize = i;
    loop
        invariant
            i <= j <= s.len(),
            skip_space(s@, i as int) == skip_space(s@, j as int),
        ensures
            i <= j <= s.len(),
            j == skip_space(s@, i as int),
        decreases s.len() - j,
    {
        if j >= s.len() {
            break ;
        }
        if space(s[j]) {
            j = j + 1;
        } else if s[j] == '/' && j + 1 < s.len() && s[j + 1] == '/' {
            j = end_of_line(s, j + 2);
        } else if s[j] == '/' && j + 1 < s.len() && s[j + 1] == '*' {
            match end_of_comment(s, j + 2) {
                Some(e) => {
                    j = e;
                },
                None => {
                    break ;
                },
            }
        } else {
            break ;
        }
    }
    j
}

/// Passes over the characters of a name.
pub fn after_name(s: &Vec<char>, i: usize) -> (j: usize)
    requires
        i <= s.len(),
    ensures
        j == name_end(s@, i as int),
        i <= j <= s.len(),
{
    let mut j: usize = i;
    while j < s.len() && name_part(s[j])
        invariant
            i <= j <= s.len(),
            name_end(s@, i as int) == name_end(s@, j as int),
        decreases s.len() - j,
    {
        j = j + 1;
    }
    j
}

/// Finds the quote that closes a string whose content begins at `i`.
pub fn closing_quote(s: &Vec<char>, i: usize) -> (r: Option<usize>)
    requires
        i <= s.len(),
    ensures
        r matches Some(e) ==> text_end(s@, i as int) == Some(e as int) && i <= e < s.len(),
        r is None ==> text_end(s@, i as int) is None,
{
    let mut j: usize = i;
    while j < s.len()
        invariant
            i <= j,
            text_end(s@, i as int) == text_end(s@, j as int),
        decreases s.len() - j,
    {
        if s[j] == '"' {
            return Some(j);
        } else if s[j] == '\\' {
            if j + 1 >= s.len() {
                return None;
            }
            j = j + 2;
        } else {
            j = j + 1;
        }
    }
    None
}

/// Reads the value that begins at `i`.
pub fn read_value(s: &Vec<char>, i: usize) -> (r: Option<(Node, usize)>)
    requires
        i <= s.len(),
    ensures
        r matches Some((node, n)) ==> value_at(s@, i as int) == Some((node@, n as int)) && i < n
            <= s.len(),
        r is None ==> value_at(s@, i as int) is None,
    decreases s.len() - i, 1int,
{
    if i >= s.len() {
        return None;
    }
    let c = s[i];
    if c == '"' {
        match closing_quote(s, i + 1) {
            Some(e) => {
                let literal = string_of(s, i, e + 1);
                match unquote(literal.as_str()) {
                    Some(t) => Some((Node::Text(t), e + 1)),
                    None => None,
                }
            },
            None => None,
        }
    } else if c == '[' {
        match read_items(s, i + 1, ']') {
            Some((items, n)) => {
                proof {
                    lemma_list_view(items);
                }
                Some((Node::List(items), n))
            },
            None => None,
        }
    } else if c == '(' {
        match read_items(s, i + 1, ')') {
            Some((items, n)) => {
                let name = String::new();
                proof {
                    lemma_form_view(name, items);
                }
                Some((Node::Form(name, items), n))
            },
            None => None,
        }
    } else if name_start(c) {
        let e = after_name(s, i);
        let k = after_space(s, e);
        proof {
            lemma_name_end_bounds(s@, i + 1);
        }
        let name = string_of(s, i, e);
        if k < s.len() && s[k] == '(' {
            match read_items(s, k + 1, ')') {
                Some((items, n)) => {
                    proof {
                        lemma_form_view(name, items);
                    }
                    Some((Node::Form(name, items), n))
                },
                None => None,
            }
        } else {
            Some((Node::Name(name), e))
        }
    } else {
        None
    }
}

/// Reads the item that begins at `i`.
pub fn read_item(s: &Vec<char>, i: usize) -> (r: Option<(Node, usize)>)
    requires
        i <= s.len(),
    ensures
        r matches Some((node, n)) ==> item_at(s@, i as int) == Some((node@, n as int)) && i < n
            <= s.len(),
        r is None ==> item_at(s@, i as int) is None,
    decreases s.len() - i, 2int,
{
    if i >= s.len() {
        return None;
    }
    let e = after_name(s, i);
    let k = after_space(s, e);
    if name_start(s[i]) && i < e && k < s.len() && s[k] == ':' {
        let v = after_space(s, k + 1);
        match read_value(s, v) {
            Some((value, n)) => {
                let label = string_of(s, i, e);
                Some((Node::Field(label, Box::new(value)), n))
            },
            None => None,
        }
    } else {
        read_value(s, i)
    }
}

/// Reads the items from `i` up to the closing bracket.
pub fn read_items(s: &Vec<char>, i: usize, close: char) -> (r: Option<(Vec<Node>, usize)>)
    requires
        i <= s.len(),
    ensures
        r matches Some((items, n)) ==> items_at(s@, i as int, close) == Some(
            (trees(items@), n as int),
        ) && i < n <= s.len(),
        r is None ==> items_at(s@, i as int, close) is None,
    decreases s.len() - i, 3int,
{
    let j = after_space(s, i);
    if j >= s.len() {
        return None;
    }
    if s[j] == close {
        let items: Vec<Node> = Vec::new();
        assert(trees(items@) =~= Seq::<Tree>::empty());
        return Some((items, j + 1));
    }
    match read_item(s, j) {
        None => None,
        Some((item, k)) => {
            let c = after_space(s, k);
            if c >= s.len() {
                None
            } else if s[c] == ',' {
                match read_items(s, c + 1, close) {
                    Some((rest, n)) => {
                        let mut items = rest;
                        let ghost before = items@;
                        let ghost first = item@;
                        items.insert(0, item);
                        assert(trees(items@) =~= seq![first] + trees(before));
                        Some((items, n))
                    },
                    None => None,
                }
            } else if s[c] == close {
                let mut items: Vec<Node> = Vec::new();
                let ghost first = item@;
                items.push(item);
                assert(trees(items@) =~= seq![first]);
                Some((items, c + 1))
            } else {
                None
            }
        },
    }
}

/// Reads a whole text as one value.
pub fn read_document(s: &Vec<char>) -> (r: Option<Node>)
    ensures
        r matches Some(node) ==> document(s@) == Some(node@),
        r is None ==> document(s@) is None,
{
    let start = after_space(s, 0);
    match read_value(s, start) {
        Some((node, n)) => {
            if after_space(s, n) == s.len() {
                Some(node)
            } else {
                None
            }
        },
        None => None,
    }
}

/// Whether a form is written on one line: it has one item, and that item
/// is no field.
pub open spec fn is_inline(items: Seq<Tree>) -> bool {
    items.len() == 1 && !(items[0] is Field)
}

/// How a tree is written, where the line it begins on is indented by
/// `ind`: a string as `ron` quotes it, a name as it is, a form with one
/// plain item on one line, and the items of a list or of any other form
/// on a line each, four spaces further in, every one followed by a comma.
pub open spec fn print(t: Tree, ind: Seq<char>) -> Seq<char>
    decreases t, 0int,
{
    match t {
        Tree::Text(s) => ron_text(s),
        Tree::Name(n) => n,
        Tree::List(items) => if items.len() == 0 {
            "[]"@
        } else {
            "["@ + print_tail(items, ind, 0, ']')
        },
        Tree::Form(n, items) => if is_inline(items) {
            n + "("@ + print(items[0], ind) + ")"@
        } else if items.len() == 0 {
            n + "()"@
        } else {
            n + "("@ + print_tail(items, ind, 0, ')')
        },
        Tree::Field(l, v) => l + ": "@ + print(*v, ind),
    }
}

/// The lines of the items from `k` on, and the closing bracket on a line
/// of its own.
pub open spec fn print_tail(items: Seq<Tree>, ind: Seq<char>, k: int, close: char) -> Seq<char>
    decreases items, items.len() - k,
{
    if k < 0 || k >= items.len() {
        "\n"@ + ind + seq![close]
    } else {
        "\n"@ + ind + "    "@ + print(items[k], ind + "    "@) + ","@ + print_tail(
            items,
            ind,
            k + 1,
            close,
        )
    }
}

/// Writes the lines of the items from `k` on at the end of `out`.
fn write_tail(items: &Vec<Node>, ind: &str, close: char, out: &mut String)
    ensures
        final(out)@ == old(out)@ + print_tail(trees(items@), ind@, 0, close),
    decreases items, 0int,
{
    let mut deeper = String::new();
    deeper.append(ind);
    deeper.append("    ");
    assert(deeper@ =~= ind@ + "    "@);
    let mut k: usize = 0;
    while k < items.len()
        invariant
            k <= items.len(),
            deeper@ == ind@ + "    "@,
            out@ + print_tail(trees(items@), ind@, k as int, close) == old(out)@ + print_tail(
                trees(items@),
                ind@,
                0,
                close,
            ),
        decreases items.len() - k,
    {
        let ghost before = out@;
        out.append("\n");
        out.append(deeper.as_str());
        write(&items[k], deeper.as_str(), out);
        out.append(",");
        assert(out@ + print_tail(trees(items@), ind@, k + 1, close) =~= before + print_tail(
            trees(items@),
            ind@,
            k as int,
            close,
        ));
        k = k + 1;
    }
    let ghost before = out@;
    out.append("\n");
    out.append(ind);
    out.push(close);
    assert(out@ =~= before + print_tail(trees(items@), ind@, k as int, close));
}

/// Writes a node at the end of `out`.
pub fn write(node: &Node, ind: &str, out: &mut String)
    ensures
        final(out)@ == old(out)@ + print(node@, ind@),
    decreases node, 1int,
{
    match node {
        Node::Text(s) => {
            let quoted = quote(s.as_str());
            out.append(quoted.as_str());
        },
        Node::Name(n) => {
            out.append(n.as_str());
        },
        Node::List(items) => {
            proof {
                lemma_list_view(*items);
            }
            if items.len() == 0 {
                out.append("[]");
            } else {
                out.append("[");
                write_tail(items, ind, ']', out);
                assert(out@ =~= old(out)@ + print(node@, ind@));
            }
        },
        Node::Form(n, items) => {
            proof {
                lemma_form_view(*n, *items);
            }
            let inline = items.len() == 1 && match &items[0] {
                Node::Field(_, _) => false,
                _ => true,
            };
            assert(inline == is_inline(trees(items@))) by {
                if items.len() == 1 {
                    assert(trees(items@)[0] == items@[0]@);
                }
            }
            out.append(n.as_str());
            if inline {
                out.append("(");
                write(&items[0], ind, out);
                out.append(")");
                assert(out@ =~= old(out)@ + print(node@, ind@));
            } else if items.len() == 0 {
                out.append("()");
                assert(out@ =~= old(out)@ + print(node@, ind@));
            } else {
                out.append("(");
                write_tail(items, ind, ')', out);
                assert(out@ =~= old(out)@ + print(node@, ind@));
            }
        },
        Node::Field(l, v) => {
            out.append(l.as_str());
            out.append(": ");
            write(v, ind, out);
            assert(out@ =~= old(out)@ + print(node@, ind@));
        },
    }
}

/// The text of a node that begins a text.
pub fn write_document(node: &Node) -> (out: String)
    ensures
        out@ == print(node@, Seq::empty()),
{
    let mut out = String::new();
    let ind = String::new();
    write(node, ind.as_str(), &mut out);
    assert(out@ =~= print(node@, Seq::empty()));
    out
}

} // verus!
