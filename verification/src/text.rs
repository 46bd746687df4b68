//! Text as sequences of characters: what the command language asks for when
//! titles are quoted, expressions are stripped and lines are put together.
use vstd::prelude::*;

verus! {

/// `String::push` of the standard library appends one character: the string
/// afterwards is the string before, followed by `c`.
pub assume_specification[ String::push ](s: &mut String, c: char)
    ensures
        final(s)@ == old(s)@.push(c),
;

/// Whether `c` is white space: a character with the Unicode property
/// `White_Space`.
pub open spec fn is_whitespace(c: char) -> bool {
    let n = c as u32;
    ||| 0x09 <= n <= 0x0D
    ||| n == 0x20
    ||| n == 0x85
    ||| n == 0xA0
    ||| n == 0x1680
    ||| 0x2000 <= n <= 0x200A
    ||| n == 0x2028
    ||| n == 0x2029
    ||| n == 0x202F
    ||| n == 0x205F
    ||| n == 0x3000
}

/// Tells whether `c` is white space.
pub fn char_is_whitespace(c: char) -> (b: bool)
    ensures
        b == is_whitespace(c),
{
    let n: u32 = c as u32;
    (0x09 <= n && n <= 0x0D) || n == 0x20 || n == 0x85 || n == 0xA0 || n == 0x1680 || (0x2000 <= n
        && n <= 0x200A) || n == 0x2028 || n == 0x2029 || n == 0x202F || n == 0x205F || n == 0x3000
}

/// `s` without its white space.
pub open spec fn without_whitespace(s: Seq<char>) -> Seq<char> {
    s.filter(|c: char| !is_whitespace(c))
}

/// Copies `text`, leaving out every white space character.
pub fn remove_whitespace(text: &str) -> (out: String)
    ensures
        out@ == without_whitespace(text@),
{
    let mut out = String::new();
    for c in it: text.chars()
        invariant
            it.seq() == text@,
            out@ == without_whitespace(text@.take(it.index())),
    {
        proof {
            let done = text@.take(it.index());
            assert(text@.take(it.index() + 1) == done.push(c));
            done.lemma_filter_push(c, |c: char| !is_whitespace(c));
        }
        if !char_is_whitespace(c) {
            out.push(c);
        }
    }
    assert(text@.take(text@.len() as int) == text@);
    out
}

/// `s` with a backslash put before every occurrence of `quote`.
pub open spec fn escaped(s: Seq<char>, quote: char) -> Seq<char>
    decreases s.len(),
{
    if s.len() == 0 {
        s
    } else if s.last() == quote {
        escaped(s.drop_last(), quote).push('\\').push(quote)
    } else {
        escaped(s.drop_last(), quote).push(s.last())
    }
}

/// Copies `text`, putting a backslash before every occurrence of `quote`.
pub fn escape(text: &str, quote: char) -> (out: String)
    ensures
        out@ == escaped(text@, quote),
{
    let mut out = String::new();
    for c in it: text.chars()
        invariant
            it.seq() == text@,
            out@ == escaped(text@.take(it.index()), quote),
    {
        proof {
            let done = text@.take(it.index() + 1);
            assert(done.drop_last() == text@.take(it.index()));
            assert(done.last() == c);
        }
        if c == quote {
            out.push('\\');
        }
        out.push(c);
    }
    assert(text@.take(text@.len() as int) == text@);
    out
}

/// The texts of `strings`, in order.
pub open spec fn texts(strings: Seq<String>) -> Seq<Seq<char>> {
    strings.map_values(|s: String| s@)
}

/// Every piece followed by `end`, one after the other.
pub open spec fn terminated(pieces: Seq<Seq<char>>, end: Seq<char>) -> Seq<char>
    decreases pieces.len(),
{
    if pieces.len() == 0 {
        Seq::empty()
    } else {
        terminated(pieces.drop_last(), end) + pieces.last() + end
    }
}

/// The pieces one after the other, with `sep` between each two neighbours.
pub open spec fn separated(pieces: Seq<Seq<char>>, sep: Seq<char>) -> Seq<char>
    decreases pieces.len(),
{
    if pieces.len() == 0 {
        Seq::empty()
    } else if pieces.len() == 1 {
        pieces[0]
    } else {
        separated(pieces.drop_last(), sep) + sep + pieces.last()
    }
}

/// Puts the strings of `parts` one after the other, each followed by `end`.
pub fn concat_terminated(parts: &Vec<String>, end: &str) -> (out: String)
    ensures
        out@ == terminated(texts(parts@), end@),
{
    let mut out = String::new();
    let mut i: usize = 0;
    while i < parts.len()
        invariant
            i <= parts.len(),
            out@ == terminated(texts(parts@).take(i as int), end@),
        decreases parts.len() - i,
    {
        proof {
            let done = texts(parts@).take(i + 1);
            assert(done.drop_last() == texts(parts@).take(i as int));
            assert(done.last() == parts@[i as int]@);
        }
        out.append(parts[i].as_str());
        out.append(end);
        i += 1;
    }
    assert(texts(parts@).take(parts.len() as int) == texts(parts@));
    out
}

/// Puts the strings of `parts` one after the other, with `sep` between each
/// two neighbours.
pub fn join(parts: &Vec<String>, sep: &str) -> (out: String)
    ensures
        out@ == separated(texts(parts@), sep@),
{
    let mut out = String::new();
    let mut i: usize = 0;
    while i < parts.len()
        invariant
            i <= parts.len(),
            out@ == separated(texts(parts@).take(i as int), sep@),
        decreases parts.len() - i,
    {
        proof {
            let done = texts(parts@).take(i + 1);
            assert(done.drop_last() == texts(parts@).take(i as int));
            assert(done.last() == parts@[i as int]@);
            if i == 0 {
                assert(out@ + parts@[0]@ == parts@[0]@);
            }
        }
        if i > 0 {
            out.append(sep);
        }
        out.append(parts[i].as_str());
        i += 1;
    }
    assert(texts(parts@).take(parts.len() as int) == texts(parts@));
    out
}

/// `title` as it stands between single quotes in a command: with a backslash
/// before every double quote, and then one before every single quote.
pub open spec fn escaped_title(title: Seq<char>) -> Seq<char> {
    escaped(escaped(title, '"'), '\'')
}

/// Whether `c` is a double or a single quote.
pub open spec fn is_quote(c: char) -> bool {
    c == '"' || c == '\''
}

/// `s` with a backslash put before every quote, double or single.
pub open spec fn quotes_escaped(s: Seq<char>) -> Seq<char>
    decreases s.len(),
{
    if s.len() == 0 {
        s
    } else if is_quote(s.last()) {
        quotes_escaped(s.drop_last()).push('\\').push(s.last())
    } else {
        quotes_escaped(s.drop_last()).push(s.last())
    }
}

/// Whether every quote in `s` has exactly one backslash before it: a
/// backslash directly before it, and none before that one.
pub open spec fn quotes_guarded(s: Seq<char>) -> bool {
    forall|i: int|
        0 <= i < s.len() && is_quote(#[trigger] s[i]) ==> i >= 1 && s[i - 1] == '\\' && (i >= 2
            ==> s[i - 2] != '\\')
}

/// Whether `c` does not occur in `s`.
pub open spec fn free_of(s: Seq<char>, c: char) -> bool {
    forall|i: int| 0 <= i < s.len() ==> s[i] != c
}

/// The number of characters of `s` before the first `c`: all of them if
/// there is none.
pub open spec fn prefix_without(s: Seq<char>, c: char) -> nat
    decreases s.len(),
{
    if s.len() == 0 || s.first() == c {
        0
    } else {
        1 + prefix_without(s.drop_first(), c)
    }
}

/// The pieces of `s` that end with `end`, in order and without it.  What
/// follows the last `end` is no piece.
pub open spec fn pieces(s: Seq<char>, end: char) -> Seq<Seq<char>>
    decreases s.len(),
{
    let n = prefix_without(s, end) as int;
    if n >= s.len() {
        Seq::empty()
    } else {
        seq![s.take(n)] + pieces(s.skip(n + 1), end)
    }
}

/// Escaping goes through a text piece by piece.
pub proof fn lemma_escaped_concat(a: Seq<char>, b: Seq<char>, quote: char)
    ensures
        escaped(a + b, quote) == escaped(a, quote) + escaped(b, quote),
    decreases b.len(),
{
    if b.len() == 0 {
        assert(a + b == a);
    } else {
        lemma_escaped_concat(a, b.drop_last(), quote);
        assert((a + b).drop_last() == a + b.drop_last());
    }
}

/// Escaping the double quotes and then the single quotes escapes every
/// quote once.
pub proof fn lemma_escaped_title_escapes_each_quote(title: Seq<char>)
    ensures
        escaped_title(title) == quotes_escaped(title),
    decreases title.len(),
{
    if title.len() > 0 {
        let c = title.last();
        let front = title.drop_last();
        lemma_escaped_title_escapes_each_quote(front);
        let added = if c == '"' {
            seq!['\\', '"']
        } else {
            seq![c]
        };
        assert(escaped(title, '"') == escaped(front, '"') + added);
        lemma_escaped_concat(escaped(front, '"'), added, '\'');
        reveal_with_fuel(escaped, 3);
        if c == '"' {
            assert(added.drop_last() == seq!['\\']);
            assert(seq!['\\'].drop_last() == Seq::<char>::empty());
            assert(escaped(added, '\'') == added);
        } else {
            assert(added.drop_last() == Seq::<char>::empty());
            assert(escaped(added, '\'') == if c == '\'' {
                seq!['\\', '\'']
            } else {
                seq![c]
            });
        }
    }
}

/// Where no quote of `s` has a backslash before it, every quote of the
/// escaped text has exactly one, and the escaped text ends as `s` does.
proof fn lemma_quotes_escaped_guarded(s: Seq<char>)
    requires
        forall|j: int| 0 < j < s.len() && is_quote(#[trigger] s[j]) ==> s[j - 1] != '\\',
    ensures
        quotes_guarded(quotes_escaped(s)),
        s.len() > 0 ==> quotes_escaped(s).len() > 0 && quotes_escaped(s).last() == s.last(),
    decreases s.len(),
{
    if s.len() > 0 {
        let front = s.drop_last();
        assert forall|j: int| 0 < j < front.len() && is_quote(#[trigger] front[j]) implies front[j
            - 1] != '\\' by {
            assert(front[j] == s[j]);
        }
        lemma_quotes_escaped_guarded(front);
        let before = quotes_escaped(front);
        let after = quotes_escaped(s);
        assert forall|i: int| 0 <= i < after.len() && is_quote(#[trigger] after[i]) implies i >= 1
            && after[i - 1] == '\\' && (i >= 2 ==> after[i - 2] != '\\') by {
            if i < before.len() {
                assert(after[i] == before[i]);
            } else if i >= 2 {
                assert(is_quote(s[s.len() - 1]));
                assert(after[i - 2] == front.last());
            }
        }
    }
}

/// A title in which no quote has a backslash before it is escaped so that
/// every quote, double or single, has exactly one backslash before it.
pub proof fn lemma_escaped_title_guards_quotes(title: Seq<char>)
    requires
        forall|j: int|
            0 < j < title.len() && is_quote(#[trigger] title[j]) ==> title[j - 1] != '\\',
    ensures
        quotes_guarded(escaped_title(title)),
{
    lemma_escaped_title_escapes_each_quote(title);
    lemma_quotes_escaped_guarded(title);
}

/// Adding a piece at the end adds the piece and `end` to the text.
pub proof fn lemma_terminated_push(pieces: Seq<Seq<char>>, piece: Seq<char>, end: Seq<char>)
    ensures
        terminated(pieces.push(piece), end) == terminated(pieces, end) + piece + end,
{
    assert(pieces.push(piece).drop_last() == pieces);
}

/// The text of pieces begins with the first piece and `end`.
pub proof fn lemma_terminated_first(pieces: Seq<Seq<char>>, end: Seq<char>)
    requires
        pieces.len() > 0,
    ensures
        terminated(pieces, end) == pieces.first() + end + terminated(pieces.drop_first(), end),
    decreases pieces.len(),
{
    if pieces.len() == 1 {
        assert(pieces.drop_last() == Seq::<Seq<char>>::empty());
        assert(pieces.drop_first() == Seq::<Seq<char>>::empty());
        assert(terminated(pieces.drop_last(), end) == Seq::<char>::empty());
        assert(terminated(pieces, end) == pieces.first() + end + Seq::<char>::empty());
    } else {
        let front = pieces.drop_last();
        lemma_terminated_first(front, end);
        assert(front.drop_first() == pieces.drop_first().drop_last());
        assert(pieces.drop_first().last() == pieces.last());
        assert(terminated(pieces, end) == pieces.first() + end + (terminated(
            front.drop_first(),
            end,
        ) + pieces.last() + end));
    }
}

/// A text that begins with a piece without `c`, followed by `c`, has as
/// many characters before its first `c` as the piece has.
proof fn lemma_prefix_without(piece: Seq<char>, c: char, rest: Seq<char>)
    requires
        free_of(piece, c),
    ensures
        prefix_without(piece + seq![c] + rest, c) == piece.len(),
    decreases piece.len(),
{
    let s = piece + seq![c] + rest;
    if piece.len() == 0 {
        assert(s.first() == c);
    } else {
        assert(s.first() == piece[0]);
        assert(free_of(piece.drop_first(), c)) by {
            assert forall|i: int| 0 <= i < piece.drop_first().len() implies piece.drop_first()[i]
                != c by {
                assert(piece.drop_first()[i] == piece[i + 1]);
            }
        }
        lemma_prefix_without(piece.drop_first(), c, rest);
        assert(s.drop_first() == piece.drop_first() + seq![c] + rest);
    }
}

/// Pieces that do not hold `end` are found again in their text: as many as
/// went in, each as it went in.
pub proof fn lemma_pieces_of_terminated(parts: Seq<Seq<char>>, end: char)
    requires
        forall|i: int| 0 <= i < parts.len() ==> free_of(#[trigger] parts[i], end),
    ensures
        pieces(terminated(parts, seq![end]), end) == parts,
    decreases parts.len(),
{
    let text = terminated(parts, seq![end]);
    if parts.len() == 0 {
        assert(pieces(text, end) == parts);
    } else {
        let rest = terminated(parts.drop_first(), seq![end]);
        lemma_terminated_first(parts, seq![end]);
        lemma_prefix_without(parts.first(), end, rest);
        let n = parts.first().len() as int;
        assert(text.take(n) == parts.first());
        assert(text.skip(n + 1) == rest);
        assert forall|i: int| 0 <= i < parts.drop_first().len() implies free_of(
            #[trigger] parts.drop_first()[i],
            end,
        ) by {
            assert(parts.drop_first()[i] == parts[i + 1]);
        }
        lemma_pieces_of_terminated(parts.drop_first(), end);
        assert(seq![parts.first()] + parts.drop_first() == parts);
    }
}

/// Separated pieces, with the separator added at the end, are the pieces
/// each followed by the separator.
pub proof fn lemma_separated_terminated(pieces: Seq<Seq<char>>, sep: Seq<char>)
    requires
        pieces.len() > 0,
    ensures
        separated(pieces, sep) + sep == terminated(pieces, sep),
    decreases pieces.len(),
{
    if pieces.len() == 1 {
        assert(pieces.drop_last() == Seq::<Seq<char>>::empty());
        assert(terminated(pieces.drop_last(), sep) == Seq::<char>::empty());
        assert(terminated(pieces, sep) == Seq::<char>::empty() + pieces[0] + sep);
    } else {
        lemma_separated_terminated(pieces.drop_last(), sep);
        assert(separated(pieces, sep) + sep == (separated(pieces.drop_last(), sep) + sep)
            + pieces.last() + sep);
    }
}

/// A character that is in no piece and not in `end` is not in the text of
/// the pieces.
pub proof fn lemma_terminated_free_of(pieces: Seq<Seq<char>>, end: Seq<char>, c: char)
    requires
        forall|i: int| 0 <= i < pieces.len() ==> free_of(#[trigger] pieces[i], c),
        free_of(end, c),
    ensures
        free_of(terminated(pieces, end), c),
    decreases pieces.len(),
{
    if pieces.len() > 0 {
        let front = pieces.drop_last();
        assert forall|i: int| 0 <= i < front.len() implies free_of(#[trigger] front[i], c) by {
            assert(front[i] == pieces[i]);
        }
        lemma_terminated_free_of(front, end, c);
        assert(free_of(pieces.last(), c));
    }
}

} // verus!
