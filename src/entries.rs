//! The text of a shell start-up file and the `export KEY=VALUE` lines in it.
//!
//! A text is read as a sequence of lines, each ended by `'\n'` (the last one
//! may lack it). A line is the entry of `KEY` when it begins with
//! `export KEY=`; what follows the `=` is the stored value.
use vstd::prelude::*;

verus! {

/// Number of characters before the first `'\n'` of `t` (all of `t` when it has none).
pub open spec fn line_len(t: Seq<char>) -> nat
    decreases t.len(),
{
    if t.len() == 0 {
        0
    } else if t[0] == '\n' {
        0
    } else {
        1 + line_len(t.drop_first())
    }
}

/// The text that follows the first line of `t` and its `'\n'`.
pub open spec fn after_line(t: Seq<char>) -> Seq<char> {
    if line_len(t) < t.len() {
        t.skip(line_len(t) + 1int)
    } else {
        Seq::empty()
    }
}

/// The lines of `t`, without their `'\n'`; a final `'\n'` starts no new line.
pub open spec fn lines(t: Seq<char>) -> Seq<Seq<char>>
    decreases t.len(),
    via lines_decreases
{
    if t.len() == 0 {
        Seq::empty()
    } else {
        seq![t.take(line_len(t) as int)] + lines(after_line(t))
    }
}

#[via_fn]
proof fn lines_decreases(t: Seq<char>) {
    lemma_line_len_bound(t);
}

/// The text made of `ls`, each line followed by `'\n'`.
pub open spec fn render(ls: Seq<Seq<char>>) -> Seq<char>
    decreases ls.len(),
{
    if ls.len() == 0 {
        Seq::empty()
    } else {
        ls[0] + seq!['\n'] + render(ls.drop_first())
    }
}

/// `export KEY=`: the start of the entry line of `key`.
pub open spec fn prefix_of(key: Seq<char>) -> Seq<char> {
    seq!['e', 'x', 'p', 'o', 'r', 't', ' '] + key + seq!['=']
}

/// The entry line that stores `value` under `key`.
pub open spec fn entry_line(key: Seq<char>, value: Seq<char>) -> Seq<char> {
    prefix_of(key) + value
}

/// Whether `line` is an entry of `key`.
pub open spec fn is_entry(line: Seq<char>, key: Seq<char>) -> bool {
    prefix_of(key).is_prefix_of(line)
}

/// The value of the first entry of `key` among `ls`.
pub open spec fn find_value(ls: Seq<Seq<char>>, key: Seq<char>) -> Option<Seq<char>>
    decreases ls.len(),
{
    if ls.len() == 0 {
        None
    } else if is_entry(ls[0], key) {
        Some(ls[0].skip(prefix_of(key).len() as int))
    } else {
        find_value(ls.drop_first(), key)
    }
}

/// `ls` without the entries of `key`, the other lines in their order.
pub open spec fn drop_entries(ls: Seq<Seq<char>>, key: Seq<char>) -> Seq<Seq<char>>
    decreases ls.len(),
{
    if ls.len() == 0 {
        Seq::empty()
    } else if is_entry(ls[0], key) {
        drop_entries(ls.drop_first(), key)
    } else {
        seq![ls[0]] + drop_entries(ls.drop_first(), key)
    }
}

/// How many of `ls` are entries of `key`.
pub open spec fn count_entries(ls: Seq<Seq<char>>, key: Seq<char>) -> nat
    decreases ls.len(),
{
    if ls.len() == 0 {
        0
    } else {
        (if is_entry(ls[0], key) {
            1nat
        } else {
            0nat
        }) + count_entries(ls.drop_first(), key)
    }
}

/// The value stored under `key` in the text `text`, if any.
pub open spec fn lookup(text: Seq<char>, key: Seq<char>) -> Option<Seq<char>> {
    find_value(lines(text), key)
}

/// The lines of the text after storing `value` under `key`: every other line
/// kept in order, the entry of `key` (when `value` is not empty) last.
pub open spec fn rewritten_lines(text: Seq<char>, key: Seq<char>, value: Seq<char>) -> Seq<Seq<char>> {
    drop_entries(lines(text), key) + if value.len() > 0 {
        seq![entry_line(key, value)]
    } else {
        Seq::empty()
    }
}

/// The text after storing `value` under `key`; an empty `value` removes the entry.
pub open spec fn rewritten(text: Seq<char>, key: Seq<char>, value: Seq<char>) -> Seq<char> {
    render(rewritten_lines(text, key, value))
}

pub proof fn lemma_line_len_bound(t: Seq<char>)
    ensures
        line_len(t) <= t.len(),
        forall|i: int| 0 <= i < line_len(t) ==> t[i] != '\n',
        line_len(t) < t.len() ==> t[line_len(t) as int] == '\n',
    decreases t.len(),
{
    if t.len() > 0 && t[0] != '\n' {
        lemma_line_len_bound(t.drop_first());
        assert forall|i: int| 0 <= i < line_len(t) implies t[i] != '\n' by {
            if i > 0 {
                assert(t[i] == t.drop_first()[i - 1]);
            }
        }
    }
}

/// The text that an optional string holds.
pub open spec fn text_of(o: Option<String>) -> Option<Seq<char>> {
    match o {
        Some(s) => Some(s@),
        None => None,
    }
}

proof fn lemma_literals()
    ensures
        "export "@ == seq!['e', 'x', 'p', 'o', 'r', 't', ' '],
        "="@ == seq!['='],
        "\n"@ == seq!['\n'],
{
    reveal_strlit("export ");
    reveal_strlit("=");
    reveal_strlit("\n");
    assert("export "@ =~= seq!['e', 'x', 'p', 'o', 'r', 't', ' ']);
    assert("="@ =~= seq!['=']);
    assert("\n"@ =~= seq!['\n']);
}

/// The first line of the text that starts at `i` of `t`, and the text after it.
proof fn lemma_lines_at(t: Seq<char>, i: int)
    requires
        0 <= i < t.len(),
    ensures
        ({
            let j = i + line_len(t.skip(i));
            &&& j <= t.len()
            &&& lines(t.skip(i)) == seq![t.subrange(i, j)] + lines(
                if j < t.len() { t.skip(j + 1) } else { Seq::empty() },
            )
        }),
{
    let rest = t.skip(i);
    let n = line_len(rest);
    lemma_line_len_bound(rest);
    assert(rest.take(n as int) =~= t.subrange(i, i + n));
    if n < rest.len() {
        assert(rest.skip(n + 1int) =~= t.skip(i + n + 1));
    }
}

/// Rendering a line appended to `ls` appends that line and its `'\n'`.
proof fn lemma_render_push(ls: Seq<Seq<char>>, l: Seq<char>)
    ensures
        render(ls.push(l)) == render(ls) + l + seq!['\n'],
    decreases ls.len(),
{
    if ls.len() == 0 {
        assert(ls.push(l).drop_first() =~= Seq::<Seq<char>>::empty());
        assert(ls.push(l)[0] == l);
        assert(render(ls.push(l).drop_first()) == Seq::<char>::empty());
        assert(render(ls) == Seq::<char>::empty());
        assert(render(ls.push(l)) =~= render(ls) + l + seq!['\n']);
    } else {
        assert(ls.push(l).drop_first() =~= ls.drop_first().push(l));
        lemma_render_push(ls.drop_first(), l);
        assert(render(ls.push(l)) =~= render(ls) + l + seq!['\n']);
    }
}

/// Returns `export KEY=`, the start of the entry line of `key`.
pub fn entry_prefix(key: &str) -> (r: String)
    ensures
        r@ == prefix_of(key@),
{
    proof {
        lemma_literals();
    }
    let mut r = String::from_str("export ");
    r.append(key);
    r.append("=");
    r
}

/// The index of the `'\n'` that ends the line starting at `i`, or `n` when there is none.
fn line_end(t: &str, n: usize, i: usize) -> (j: usize)
    requires
        n == t@.len(),
        i <= n,
    ensures
        i <= j <= n,
        j == i + line_len(t@.skip(i as int)),
{
    let mut j = i;
    while j < n && t.get_char(j) != '\n'
        invariant
            i <= j <= n,
            n == t@.len(),
            line_len(t@.skip(i as int)) == (j - i) + line_len(t@.skip(j as int)),
        decreases n - j,
    {
        proof {
            assert(t@.skip(j as int).drop_first() =~= t@.skip(j + 1));
        }
        j = j + 1;
    }
    proof {
        if j == n {
            assert(t@.skip(j as int).len() == 0);
        }
    }
    j
}

/// Whether the characters `i..j` of `t` begin with `p`, which has `m` characters.
fn has_prefix_at(t: &str, i: usize, j: usize, p: &str, m: usize) -> (r: bool)
    requires
        i <= j <= t@.len(),
        m == p@.len(),
    ensures
        r == p@.is_prefix_of(t@.subrange(i as int, j as int)),
{
    if m > j - i {
        return false;
    }
    let mut k: usize = 0;
    while k < m
        invariant
            k <= m <= j - i,
            i <= j <= t@.len(),
            m == p@.len(),
            forall|x: int| 0 <= x < k ==> p@[x] == t@[i + x],
        decreases m - k,
    {
        if p.get_char(k) != t.get_char(i + k) {
            proof {
                assert(p@[k as int] != t@.subrange(i as int, j as int)[k as int]);
            }
            return false;
        }
        k = k + 1;
    }
    proof {
        assert(p@ =~= t@.subrange(i as int, j as int).subrange(0, m as int));
    }
    true
}

/// The value stored under `key` in `text`: what follows `export KEY=` on the
/// first line that begins with it, or `None` when no line does.
pub fn lookup_entry(text: &str, key: &str) -> (r: Option<String>)
    ensures
        text_of(r) == lookup(text@, key@),
{
    let prefix = entry_prefix(key);
    let p = prefix.as_str();
    let m = p.unicode_len();
    let n = text.unicode_len();
    let mut i: usize = 0;
    proof {
        assert(text@.skip(0) =~= text@);
    }
    while i < n
        invariant
            i <= n,
            n == text@.len(),
            p@ == prefix_of(key@),
            m == p@.len(),
            lookup(text@, key@) == find_value(lines(text@.skip(i as int)), key@),
        decreases n - i,
    {
        let j = line_end(text, n, i);
        proof {
            lemma_lines_at(text@, i as int);
        }
        let ghost line = text@.subrange(i as int, j as int);
        let ghost ls = lines(text@.skip(i as int));
        assert(ls[0] == line);
        if has_prefix_at(text, i, j, p, m) {
            let v = text.substring_char(i + m, j);
            proof {
                assert(v@ =~= line.skip(m as int));
            }
            return Some(String::from_str(v));
        }
        assert(ls.drop_first() =~= lines(if j < n { text@.skip(j + 1) } else { Seq::empty() }));
        if j < n {
            i = j + 1;
        } else {
            i = n;
        }
        proof {
            if i == n {
                assert(text@.skip(i as int) =~= Seq::<char>::empty());
            }
        }
    }
    proof {
        assert(text@.skip(i as int) =~= Seq::<char>::empty());
    }
    None
}

/// The text after storing `value` under `key`: every line that is not an entry
/// of `key` is kept in order, each ended by `'\n'`; then, when `value` is not
/// empty, the line `export KEY=VALUE` is appended. An empty `value` removes
/// the entry.
pub fn rewrite_entries(text: &str, key: &str, value: &str) -> (r: String)
    ensures
        r@ == rewritten(text@, key@, value@),
{
    proof {
        lemma_literals();
    }
    let prefix = entry_prefix(key);
    let p = prefix.as_str();
    let m = p.unicode_len();
    let n = text.unicode_len();
    let mut out = String::new();
    let mut i: usize = 0;
    proof {
        assert(text@.skip(0) =~= text@);
        assert(out@ + render(drop_entries(lines(text@), key@)) =~= render(drop_entries(lines(text@), key@)));
    }
    while i < n
        invariant
            i <= n,
            n == text@.len(),
            p@ == prefix_of(key@),
            m == p@.len(),
            "\n"@ == seq!['\n'],
            render(drop_entries(lines(text@), key@)) == out@ + render(
                drop_entries(lines(text@.skip(i as int)), key@),
            ),
        decreases n - i,
    {
        let j = line_end(text, n, i);
        proof {
            lemma_lines_at(text@, i as int);
        }
        let ghost line = text@.subrange(i as int, j as int);
        let ghost ls = lines(text@.skip(i as int));
        let ghost next = if j < n { text@.skip(j + 1) } else { Seq::<char>::empty() };
        assert(ls[0] == line);
        assert(ls.drop_first() =~= lines(next));
        let ghost old_out = out@;
        if !has_prefix_at(text, i, j, p, m) {
            let l = text.substring_char(i, j);
            out.append(l);
            out.append("\n");
            proof {
                let d = drop_entries(lines(next), key@);
                assert(drop_entries(ls, key@) == seq![line] + d);
                assert((seq![line] + d).drop_first() =~= d);
                assert(old_out + render(seq![line] + d) =~= out@ + render(d));
            }
        }
        if j < n {
            i = j + 1;
        } else {
            i = n;
        }
        proof {
            if i == n {
                assert(text@.skip(i as int) =~= Seq::<char>::empty());
            }
            assert(next == text@.skip(i as int));
        }
    }
    proof {
        assert(text@.skip(i as int) =~= Seq::<char>::empty());
        assert(out@ + render(Seq::<Seq<char>>::empty()) =~= out@);
    }
    if value.unicode_len() > 0 {
        let ghost kept = drop_entries(lines(text@), key@);
        out.append(p);
        out.append(value);
        out.append("\n");
        proof {
            lemma_render_push(kept, entry_line(key@, value@));
            assert(kept + seq![entry_line(key@, value@)] =~= kept.push(entry_line(key@, value@)));
            assert(out@ =~= render(kept) + entry_line(key@, value@) + seq!['\n']);
        }
    } else {
        proof {
            assert(rewritten_lines(text@, key@, value@) =~= drop_entries(lines(text@), key@));
        }
    }
    out
}

} // verus!
