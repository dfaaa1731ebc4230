//! The block scanner: groups lines into blocks and renders each block as HTML.
use vstd::prelude::*;
use crate::classify::{
    blockquote_text, bullet_text, heading, is_blockquote, is_bullet, is_list_item,
    is_numbered, is_ordered_list_item, is_quote, list_item_text, numbered_text,
    ordered_item_text, parse_heading, quote_text,
};
use crate::text::{chars_of, is_ws, lemma_blank, lines_of, split_lines, trim, trimmed, views};

verus! {

/// The blocks that may span several consecutive lines.
#[derive(Clone, Copy, PartialEq, Eq, Structural)]
pub enum RunKind {
    Quote,
    Bullet,
    Numbered,
}

/// Whether a line continues a run of kind `k`: a list item is recognised on the
/// trimmed line, a blockquote marker after the leading whitespace.
pub open spec fn continues(k: RunKind, l: Seq<char>) -> bool {
    match k {
        RunKind::Quote => is_quote(l),
        RunKind::Bullet => is_bullet(trim(l)),
        RunKind::Numbered => is_numbered(trim(l)),
    }
}

/// The content that a line adds to a run of kind `k`.
pub open spec fn run_text(k: RunKind, l: Seq<char>) -> Seq<char> {
    match k {
        RunKind::Quote => quote_text(l),
        RunKind::Bullet => bullet_text(l),
        RunKind::Numbered => numbered_text(l),
    }
}

/// The parts joined with `sep` between each two of them.
pub open spec fn join(parts: Seq<Seq<char>>, sep: Seq<char>) -> Seq<char>
    decreases parts.len(),
{
    if parts.len() == 0 {
        Seq::empty()
    } else if parts.len() == 1 {
        parts[0]
    } else {
        join(parts.drop_last(), sep) + sep + parts.last()
    }
}

pub open spec fn newline() -> Seq<char> {
    seq!['\n']
}

pub open spec fn list_item_html(t: Seq<char>) -> Seq<char> {
    "<li>"@ + t + "</li>"@
}

pub open spec fn run_open(k: RunKind) -> Seq<char> {
    match k {
        RunKind::Quote => "<blockquote>\n"@,
        RunKind::Bullet => "<ul>\n"@,
        RunKind::Numbered => "<ol>\n"@,
    }
}

pub open spec fn run_close(k: RunKind) -> Seq<char> {
    match k {
        RunKind::Quote => "</blockquote>"@,
        RunKind::Bullet => "\n</ul>"@,
        RunKind::Numbered => "\n</ol>"@,
    }
}

/// The lines of a run as they stand in its element.
pub open spec fn run_items(k: RunKind, texts: Seq<Seq<char>>) -> Seq<Seq<char>> {
    match k {
        RunKind::Quote => texts,
        _ => texts.map_values(|t: Seq<char>| list_item_html(t)),
    }
}

/// The element of a run whose lines hold `texts`.
pub open spec fn run_html(k: RunKind, texts: Seq<Seq<char>>) -> Seq<char> {
    run_open(k) + join(run_items(k, texts), newline()) + run_close(k)
}

pub open spec fn heading_open(level: nat) -> Seq<char> {
    if level == 1 {
        "<h1>"@
    } else if level == 2 {
        "<h2>"@
    } else if level == 3 {
        "<h3>"@
    } else if level == 4 {
        "<h4>"@
    } else if level == 5 {
        "<h5>"@
    } else {
        "<h6>"@
    }
}

pub open spec fn heading_close(level: nat) -> Seq<char> {
    if level == 1 {
        "</h1>"@
    } else if level == 2 {
        "</h2>"@
    } else if level == 3 {
        "</h3>"@
    } else if level == 4 {
        "</h4>"@
    } else if level == 5 {
        "</h5>"@
    } else {
        "</h6>"@
    }
}

pub open spec fn heading_html(level: nat, content: Seq<char>) -> Seq<char> {
    heading_open(level) + trim(content) + heading_close(level)
}

pub open spec fn paragraph_html(t: Seq<char>) -> Seq<char> {
    "<p>"@ + t + "</p>"@
}

/// The elements that the lines from `i` on give, when no run is open at `i`.
/// Blank lines are skipped; a heading or a paragraph is one line; a blockquote
/// or a list opens a run.
pub open spec fn blocks_from(ls: Seq<Seq<char>>, i: nat) -> Seq<Seq<char>>
    decreases ls.len() - i, 0nat,
{
    if i >= ls.len() {
        seq![]
    } else {
        let t = trim(ls[i as int]);
        if t.len() == 0 {
            blocks_from(ls, i + 1)
        } else if heading(t) is Some {
            let (level, content) = heading(t)->0;
            seq![heading_html(level, content)] + blocks_from(ls, i + 1)
        } else if is_quote(t) {
            run_from(ls, RunKind::Quote, seq![quote_text(t)], i + 1)
        } else if is_bullet(t) {
            run_from(ls, RunKind::Bullet, seq![bullet_text(t)], i + 1)
        } else if is_numbered(t) {
            run_from(ls, RunKind::Numbered, seq![numbered_text(t)], i + 1)
        } else {
            seq![paragraph_html(t)] + blocks_from(ls, i + 1)
        }
    }
}

/// The elements that the lines from `j` on give, while a run of kind `k` that
/// has gathered `acc` is open: each line that continues it adds its text, and
/// the first that does not (a blank line among them) closes it.
pub open spec fn run_from(ls: Seq<Seq<char>>, k: RunKind, acc: Seq<Seq<char>>, j: nat) -> Seq<
    Seq<char>,
>
    decreases ls.len() - j, 1nat,
{
    if j < ls.len() && continues(k, ls[j as int]) {
        run_from(ls, k, acc.push(run_text(k, ls[j as int])), j + 1)
    } else {
        seq![run_html(k, acc)] + blocks_from(ls, j)
    }
}

/// The HTML of a whole text: its elements, one `\n` between each two.
pub open spec fn markdown_html(s: Seq<char>) -> Seq<char> {
    join(blocks_from(lines_of(s), 0), newline())
}

proof fn lemma_join_push(parts: Seq<Seq<char>>, sep: Seq<char>, e: Seq<char>)
    ensures
        join(parts.push(e), sep) == if parts.len() == 0 {
            e
        } else {
            join(parts, sep) + sep + e
        },
{
    assert(parts.push(e).drop_last() =~= parts);
}

/// Appends the characters of `lit`.
fn push_str(v: &mut Vec<char>, lit: &str)
    ensures
        final(v)@ == old(v)@ + lit@,
{
    broadcast use vstd::string::group_string_axioms;
    let ghost start = v@;
    for c in it: lit.chars()
        invariant
            v@ == start + it.seq().take(it.index() as int),
    {
        v.push(c);
        assert(v@ =~= start + it.seq().take(it.index() as int + 1));
    }
    assert(v@ =~= start + lit@);
}

/// Appends the characters of `w`.
fn push_chars(v: &mut Vec<char>, w: &Vec<char>)
    ensures
        final(v)@ == old(v)@ + w@,
{
    let ghost start = v@;
    let mut j: usize = 0;
    while j < w.len()
        invariant
            j <= w.len(),
            v@ == start + w@.take(j as int),
        decreases w.len() - j,
    {
        v.push(w[j]);
        j = j + 1;
        assert(v@ =~= start + w@.take(j as int));
    }
    assert(w@.take(j as int) =~= w@);
}

fn run_open_str(k: RunKind) -> (r: &'static str)
    ensures
        r@ == run_open(k),
{
    match k {
        RunKind::Quote => "<blockquote>\n",
        RunKind::Bullet => "<ul>\n",
        RunKind::Numbered => "<ol>\n",
    }
}

fn run_close_str(k: RunKind) -> (r: &'static str)
    ensures
        r@ == run_close(k),
{
    match k {
        RunKind::Quote => "</blockquote>",
        RunKind::Bullet => "\n</ul>",
        RunKind::Numbered => "\n</ol>",
    }
}

/// Renders a run of kind `k` whose lines hold `texts`.
pub fn render_run(k: RunKind, texts: &Vec<Vec<char>>) -> (r: Vec<char>)
    ensures
        r@ == run_html(k, views(texts@)),
{
    let ghost items = run_items(k, views(texts@));
    let mut r: Vec<char> = Vec::new();
    push_str(&mut r, run_open_str(k));
    let mut j: usize = 0;
    while j < texts.len()
        invariant
            j <= texts.len(),
            items == run_items(k, views(texts@)),
            items.len() == texts.len(),
            r@ == run_open(k) + join(items.take(j as int), newline()),
        decreases texts.len() - j,
    {
        let ghost before = r@;
        proof {
            lemma_join_push(items.take(j as int), newline(), items[j as int]);
            assert(items.take(j as int).push(items[j as int]) =~= items.take(j as int + 1));
            reveal_strlit("\n");
            assert("\n"@ =~= newline());
        }
        if j > 0 {
            push_str(&mut r, "\n");
        }
        let ghost mid = r@;
        assert(mid == before + if j > 0 {
            newline()
        } else {
            Seq::empty()
        });
        match k {
            RunKind::Quote => {
                push_chars(&mut r, &texts[j]);
            },
            _ => {
                push_str(&mut r, "<li>");
                push_chars(&mut r, &texts[j]);
                push_str(&mut r, "</li>");
            },
        }
        assert(r@ == mid + if k == RunKind::Quote {
            texts@[j as int]@
        } else {
            list_item_html(texts@[j as int]@)
        }) by {
            reveal_strlit("<li>");
            reveal_strlit("</li>");
        }
        assert(r@ == mid + items[j as int]);
        assert(r@ =~= run_open(k) + join(items.take(j as int + 1), newline()));
        j = j + 1;
    }
    assert(items.take(j as int) =~= items);
    push_str(&mut r, run_close_str(k));
    r
}

fn run_continues(k: RunKind, line: &Vec<char>) -> (r: bool)
    ensures
        r == continues(k, line@),
{
    match k {
        RunKind::Quote => is_blockquote(line),
        RunKind::Bullet => is_list_item(&trimmed(line)),
        RunKind::Numbered => is_ordered_list_item(&trimmed(line)),
    }
}

fn run_line_text(k: RunKind, line: &Vec<char>) -> (r: Vec<char>)
    ensures
        r@ == run_text(k, line@),
{
    match k {
        RunKind::Quote => blockquote_text(line),
        RunKind::Bullet => list_item_text(line),
        RunKind::Numbered => ordered_item_text(line),
    }
}

/// Gathers the run of kind `k` that `first` opened, from line `j0` on, and
/// renders it; gives the element and the first line past the run.
pub fn collect_run(lines: &Vec<Vec<char>>, k: RunKind, first: Vec<char>, j0: usize) -> (r: (
    Vec<char>,
    usize,
))
    requires
        j0 <= lines.len(),
    ensures
        run_from(views(lines@), k, seq![first@], j0 as nat) == seq![r.0@] + blocks_from(
            views(lines@),
            r.1 as nat,
        ),
        j0 <= r.1 <= lines.len(),
        forall|m: int| j0 <= m < r.1 ==> continues(k, #[trigger] lines@[m]@),
        r.1 < lines.len() ==> !continues(k, lines@[r.1 as int]@),
{
    let ghost ls = views(lines@);
    let mut texts: Vec<Vec<char>> = Vec::new();
    texts.push(first);
    assert(views(texts@) =~= seq![first@]);
    let mut j: usize = j0;
    while j < lines.len() && run_continues(k, &lines[j])
        invariant
            j0 <= j <= lines.len(),
            forall|m: int| j0 <= m < j ==> continues(k, #[trigger] lines@[m]@),
            ls == views(lines@),
            run_from(ls, k, seq![first@], j0 as nat) == run_from(ls, k, views(texts@), j as nat),
        decreases lines.len() - j,
    {
        let t = run_line_text(k, &lines[j]);
        proof {
            assert(views(texts@.push(t)) =~= views(texts@).push(t@));
        }
        texts.push(t);
        j = j + 1;
    }
    let html = render_run(k, &texts);
    (html, j)
}

/// Renders the blockquote that opens at line `i`, whose trimmed text is `first`;
/// gives the element and the first line past it, which is the first line after
/// `i` that does not continue it (a blank line among them).
pub fn parse_blockquote(first: &Vec<char>, lines: &Vec<Vec<char>>, i: usize) -> (r: (
    Vec<char>,
    usize,
))
    requires
        i < lines.len(),
        first@ == trim(lines@[i as int]@),
        first@.len() > 0,
        heading(first@) is None,
        is_quote(first@),
    ensures
        blocks_from(views(lines@), i as nat) == seq![r.0@] + blocks_from(views(lines@), r.1 as nat),
        i < r.1 <= lines.len(),
        forall|m: int| i < m < r.1 ==> is_quote(#[trigger] lines@[m]@),
        r.1 < lines.len() ==> !is_quote(lines@[r.1 as int]@),
{
    collect_run(lines, RunKind::Quote, blockquote_text(first), i + 1)
}

/// Renders the unordered list that opens at line `i`, whose trimmed text is `first`;
/// gives the element and the first line past it: the first line after `i` that,
/// trimmed, is no item (a blank line among them).
pub fn parse_list(first: &Vec<char>, lines: &Vec<Vec<char>>, i: usize) -> (r: (Vec<char>, usize))
    requires
        i < lines.len(),
        first@ == trim(lines@[i as int]@),
        first@.len() > 0,
        heading(first@) is None,
        !is_quote(first@),
        is_bullet(first@),
    ensures
        blocks_from(views(lines@), i as nat) == seq![r.0@] + blocks_from(views(lines@), r.1 as nat),
        i < r.1 <= lines.len(),
        forall|m: int| i < m < r.1 ==> is_bullet(trim(#[trigger] lines@[m]@)),
        r.1 < lines.len() ==> !is_bullet(trim(lines@[r.1 as int]@)),
{
    collect_run(lines, RunKind::Bullet, list_item_text(first), i + 1)
}

/// Renders the ordered list that opens at line `i`, whose trimmed text is `first`;
/// gives the element and the first line past it: the first line after `i` that,
/// trimmed, is no ordered item (a blank line among them).
pub fn parse_ordered_list(first: &Vec<char>, lines: &Vec<Vec<char>>, i: usize) -> (r: (
    Vec<char>,
    usize,
))
    requires
        i < lines.len(),
        first@ == trim(lines@[i as int]@),
        first@.len() > 0,
        heading(first@) is None,
        !is_quote(first@),
        !is_bullet(first@),
        is_numbered(first@),
    ensures
        blocks_from(views(lines@), i as nat) == seq![r.0@] + blocks_from(views(lines@), r.1 as nat),
        i < r.1 <= lines.len(),
        forall|m: int| i < m < r.1 ==> is_numbered(trim(#[trigger] lines@[m]@)),
        r.1 < lines.len() ==> !is_numbered(trim(lines@[r.1 as int]@)),
{
    collect_run(lines, RunKind::Numbered, ordered_item_text(first), i + 1)
}

fn heading_open_str(level: usize) -> (r: &'static str)
    ensures
        r@ == heading_open(level as nat),
{
    if level == 1 {
        "<h1>"
    } else if level == 2 {
        "<h2>"
    } else if level == 3 {
        "<h3>"
    } else if level == 4 {
        "<h4>"
    } else if level == 5 {
        "<h5>"
    } else {
        "<h6>"
    }
}

fn heading_close_str(level: usize) -> (r: &'static str)
    ensures
        r@ == heading_close(level as nat),
{
    if level == 1 {
        "</h1>"
    } else if level == 2 {
        "</h2>"
    } else if level == 3 {
        "</h3>"
    } else if level == 4 {
        "</h4>"
    } else if level == 5 {
        "</h5>"
    } else {
        "</h6>"
    }
}

/// The element of the block that starts at line `i`, whose trimmed text `t` is
/// not empty, and the first line past that block.
fn parse_block(t: &Vec<char>, lines: &Vec<Vec<char>>, i: usize) -> (r: (Vec<char>, usize))
    requires
        i < lines.len(),
        t@ == trim(lines@[i as int]@),
        t@.len() > 0,
    ensures
        blocks_from(views(lines@), i as nat) == seq![r.0@] + blocks_from(views(lines@), r.1 as nat),
        i < r.1 <= lines.len(),
{
    if let Some((level, content)) = parse_heading(t) {
        let mut e: Vec<char> = Vec::new();
        push_str(&mut e, heading_open_str(level));
        let c = trimmed(&content);
        push_chars(&mut e, &c);
        push_str(&mut e, heading_close_str(level));
        (e, i + 1)
    } else if is_blockquote(t) {
        parse_blockquote(t, lines, i)
    } else if is_list_item(t) {
        parse_list(t, lines, i)
    } else if is_ordered_list_item(t) {
        parse_ordered_list(t, lines, i)
    } else {
        let mut e: Vec<char> = Vec::new();
        push_str(&mut e, "<p>");
        push_chars(&mut e, t);
        push_str(&mut e, "</p>");
        (e, i + 1)
    }
}

/// Relies on `String`'s `FromIterator<&char>`: the string holds the chars in order.
#[verifier::external_body]
fn string_from_chars(v: &Vec<char>) -> (r: String)
    ensures
        r@ == v@,
{
    v.iter().collect()
}

/// Converts a text to HTML: one element per block, one `\n` between each two.
pub fn parse_markdown(input: &str) -> (html: String)
    ensures
        html@ == markdown_html(input@),
{
    let chars = chars_of(input);
    let lines = split_lines(&chars);
    let ghost ls = views(lines@);
    let ghost mut done: Seq<Seq<char>> = seq![];
    let mut out: Vec<char> = Vec::new();
    let mut any: bool = false;
    let mut i: usize = 0;
    while i < lines.len()
        invariant
            i <= lines.len(),
            any == (done.len() > 0),
            ls == views(lines@),
            ls == lines_of(input@),
            blocks_from(ls, 0) == done + blocks_from(ls, i as nat),
            out@ == join(done, newline()),
        decreases lines.len() - i,
    {
        let t = trimmed(&lines[i]);
        if t.len() == 0 {
            i = i + 1;
        } else {
            let (e, next) = parse_block(&t, &lines, i);
            proof {
                lemma_join_push(done, newline(), e@);
                reveal_strlit("\n");
                assert("\n"@ =~= newline());
            }
            if any {
                push_str(&mut out, "\n");
            }
            any = true;
            push_chars(&mut out, &e);
            proof {
                assert(done + blocks_from(ls, i as nat) =~= done.push(e@) + blocks_from(
                    ls,
                    next as nat,
                ));
                done = done.push(e@);
            }
            i = next;
        }
    }
    assert(done =~= blocks_from(ls, 0));
    string_from_chars(&out)
}

/// Conversion is deterministic: equal texts give equal HTML.
pub proof fn lemma_deterministic(a: Seq<char>, b: Seq<char>)
    requires
        a == b,
    ensures
        markdown_html(a) == markdown_html(b),
{
}

/// A blank line (whitespace alone) gives no element of its own, and it never
/// joins a run: where a run is open, it closes the run.
pub proof fn lemma_blank_line(ls: Seq<Seq<char>>, i: nat, k: RunKind, acc: Seq<Seq<char>>)
    requires
        i < ls.len(),
        forall|m: int| 0 <= m < ls[i as int].len() ==> is_ws(#[trigger] ls[i as int][m]),
    ensures
        blocks_from(ls, i) == blocks_from(ls, i + 1),
        !continues(k, ls[i as int]),
        run_from(ls, k, acc, i) == seq![run_html(k, acc)] + blocks_from(ls, i),
{
    lemma_blank(ls[i as int]);
}

} // verus!
