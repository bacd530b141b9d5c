//! A list of symbols written as one text, the symbols parted by commas or
//! by another separator.
use vstd::prelude::*;

verus! {

/// The pieces, written one after the other with the separator between
/// neighbours.
pub open spec fn joined(pieces: Seq<Seq<char>>, separator: char) -> Seq<char>
    decreases pieces.len(),
{
    if pieces.len() == 0 {
        Seq::empty()
    } else if pieces.len() == 1 {
        pieces[0]
    } else {
        joined(pieces.drop_last(), separator) + seq![separator] + pieces.last()
    }
}

/// `pieces` are the parts of `text` between its separators: there is at
/// least one, none holds a separator, and with separators between them they
/// are `text`.
pub open spec fn is_split(text: Seq<char>, pieces: Seq<Seq<char>>, separator: char) -> bool {
    &&& pieces.len() >= 1
    &&& joined(pieces, separator) == text
    &&& forall|i: int| 0 <= i < pieces.len() ==> !(#[trigger] pieces[i]).contains(separator)
}

/// Whether a text holds a character at all.
pub open spec fn is_named(text: Seq<char>) -> bool {
    text.len() > 0
}

/// What each of the strings holds.
pub open spec fn texts(strings: Seq<String>) -> Seq<Seq<char>> {
    Seq::new(strings.len(), |i: int| strings[i]@)
}

/// Where pieces without separators are joined, the last separator of the
/// text stands right before the last piece.
proof fn lemma_last_separator(pieces: Seq<Seq<char>>, separator: char)
    requires
        pieces.len() >= 1,
        forall|i: int| 0 <= i < pieces.len() ==> !(#[trigger] pieces[i]).contains(separator),
    ensures
        ({
            let whole = joined(pieces, separator);
            let last = pieces.last();
            let at = whole.len() - last.len() - 1;
            &&& whole.len() >= last.len()
            &&& whole.subrange(whole.len() - last.len(), whole.len() as int) == last
            &&& pieces.len() == 1 ==> !whole.contains(separator)
            &&& pieces.len() >= 2 ==> {
                &&& at >= 0
                &&& whole[at] == separator
                &&& whole.subrange(0, at) == joined(pieces.drop_last(), separator)
            }
        }),
{
    let whole = joined(pieces, separator);
    let last = pieces.last();
    if pieces.len() == 1 {
        assert(whole.subrange(0, whole.len() as int) =~= last);
    } else {
        let front = joined(pieces.drop_last(), separator);
        assert(whole == front + seq![separator] + last);
        assert(whole.subrange(whole.len() - last.len(), whole.len() as int) =~= last);
        assert(whole.subrange(0, whole.len() - last.len() - 1) =~= front);
    }
}

/// A text is split in one way only.
pub proof fn lemma_split_unique(
    text: Seq<char>,
    separator: char,
    first: Seq<Seq<char>>,
    second: Seq<Seq<char>>,
)
    requires
        is_split(text, first, separator),
        is_split(text, second, separator),
    ensures
        first == second,
    decreases first.len(),
{
    lemma_last_separator(first, separator);
    lemma_last_separator(second, separator);
    let a = first.last();
    let b = second.last();
    if first.len() == 1 {
        if second.len() >= 2 {
            let at = text.len() - b.len() - 1;
            assert(text[at] == separator);
            assert(text.contains(separator));
        }
        assert(first =~= second);
    } else {
        let at = text.len() - a.len() - 1;
        assert(text[at] == separator);
        if second.len() == 1 {
            assert(text.contains(separator));
        }
        let bt = text.len() - b.len() - 1;
        // The separator before one last piece cannot lie inside the other.
        if at < bt {
            assert(a[bt - at - 1] == text[bt]);
            assert(a.contains(separator));
        }
        if bt < at {
            assert(b[at - bt - 1] == text[at]);
            assert(b.contains(separator));
        }
        assert(a == b);
        let firsts = first.drop_last();
        let seconds = second.drop_last();
        assert forall|i: int| 0 <= i < firsts.len() implies !(#[trigger] firsts[i]).contains(
            separator,
        ) by {
            assert(firsts[i] == first[i]);
        }
        assert forall|i: int| 0 <= i < seconds.len() implies !(#[trigger] seconds[i]).contains(
            separator,
        ) by {
            assert(seconds[i] == second[i]);
        }
        lemma_split_unique(text.subrange(0, at), separator, firsts, seconds);
        assert(first =~= first.drop_last().push(a));
        assert(second =~= second.drop_last().push(b));
    }
}

/// Splits a text at its separators. Nothing is trimmed and nothing is
/// dropped: a text without a separator is one piece, the empty text too, and
/// two separators in a row have an empty piece between them.
///
/// The text is read by characters; the time taken grows with the square of
/// its length.
pub fn split(text: &str, separator: char) -> (symbols: Vec<String>)
    ensures
        is_split(text@, texts(symbols@), separator),
{
    let n = text.unicode_len();
    let mut symbols: Vec<String> = Vec::new();
    let mut start: usize = 0;
    let mut i: usize = 0;
    while i < n
        invariant
            start <= i <= n,
            n == text@.len(),
            symbols.len() == 0 ==> start == 0,
            symbols.len() > 0 ==> joined(texts(symbols@), separator) + seq![separator]
                == text@.take(start as int),
            forall|k: int| start <= k < i ==> text@[k] != separator,
            forall|k: int|
                0 <= k < symbols.len() ==> !(#[trigger] texts(symbols@)[k]).contains(separator),
        decreases n - i,
    {
        if text.get_char(i) == separator {
            let piece = String::from_str(text.substring_char(start, i));
            proof {
                lemma_push_piece(text@, separator, texts(symbols@), start as int, i as int);
                assert(texts(symbols@.push(piece)) =~= texts(symbols@).push(piece@));
                assert(text@.take(i as int) + seq![separator] =~= text@.take(i + 1));
            }
            symbols.push(piece);
            start = i + 1;
        }
        i += 1;
    }
    let piece = String::from_str(text.substring_char(start, n));
    proof {
        lemma_push_piece(text@, separator, texts(symbols@), start as int, n as int);
        assert(texts(symbols@.push(piece)) =~= texts(symbols@).push(piece@));
        assert(text@.take(n as int) =~= text@);
    }
    symbols.push(piece);
    symbols
}

/// The pieces that end before `start`, and the piece from `start` to `end`
/// behind them, are the pieces that end before `end`.
proof fn lemma_push_piece(
    text: Seq<char>,
    separator: char,
    pieces: Seq<Seq<char>>,
    start: int,
    end: int,
)
    requires
        0 <= start <= end <= text.len(),
        pieces.len() == 0 ==> start == 0,
        pieces.len() > 0 ==> joined(pieces, separator) + seq![separator] == text.take(start),
        forall|k: int| start <= k < end ==> text[k] != separator,
        forall|k: int| 0 <= k < pieces.len() ==> !(#[trigger] pieces[k]).contains(separator),
    ensures
        ({
            let grown = pieces.push(text.subrange(start, end));
            &&& joined(grown, separator) == text.take(end)
            &&& forall|k: int| 0 <= k < grown.len() ==> !(#[trigger] grown[k]).contains(separator)
        }),
{
    let piece = text.subrange(start, end);
    let grown = pieces.push(piece);
    assert(grown.drop_last() =~= pieces);
    if pieces.len() == 0 {
        assert(piece =~= text.take(end));
    } else {
        assert(text.take(start) + piece =~= text.take(end));
    }
    assert forall|k: int| 0 <= k < grown.len() implies !(#[trigger] grown[k]).contains(
        separator,
    ) by {
        if k < pieces.len() {
            assert(grown[k] == pieces[k]);
        } else {
            if piece.contains(separator) {
                let j = choose|j: int| 0 <= j < piece.len() && piece[j] == separator;
                assert(text[start + j] == separator);
            }
        }
    }
}

/// Splits a list of symbols at its commas. Nothing is trimmed and nothing is
/// dropped: see [`split`].
pub fn split_symbols(text: &str) -> (symbols: Vec<String>)
    ensures
        is_split(text@, texts(symbols@), ','),
{
    split(text, ',')
}

/// The entries that are not empty, in their order.
pub fn without_empty(symbols: &Vec<String>) -> (named: Vec<String>)
    ensures
        texts(named@) == texts(symbols@).filter(|text: Seq<char>| is_named(text)),
{
    let ghost keep = |text: Seq<char>| is_named(text);
    let mut named: Vec<String> = Vec::new();
    let mut i: usize = 0;
    proof {
        reveal(Seq::filter);
        assert(texts(symbols@.take(0)) =~= Seq::<Seq<char>>::empty());
        assert(texts(named@) =~= texts(symbols@.take(0)).filter(keep));
    }
    while i < symbols.len()
        invariant
            i <= symbols.len(),
            keep == |text: Seq<char>| is_named(text),
            texts(named@) == texts(symbols@.take(i as int)).filter(keep),
        decreases symbols.len() - i,
    {
        proof {
            reveal(Seq::filter);
            let grown = texts(symbols@.take(i + 1));
            assert(grown.drop_last() =~= texts(symbols@.take(i as int)));
            assert(grown.last() == symbols@[i as int]@);
        }
        if !symbols[i].as_str().is_empty() {
            let symbol = symbols[i].clone();
            assert(texts(named@.push(symbol)) =~= texts(named@).push(symbol@));
            named.push(symbol);
        }
        i += 1;
    }
    assert(symbols@.take(i as int) =~= symbols@);
    named
}

/// Whether the list names a symbol at all: one of its entries is not empty.
pub fn any_symbol(symbols: &Vec<String>) -> (found: bool)
    ensures
        found == exists|i: int| 0 <= i < symbols.len() && (#[trigger] symbols@[i])@.len() > 0,
{
    let mut i: usize = 0;
    while i < symbols.len()
        invariant
            i <= symbols.len(),
            forall|k: int| 0 <= k < i ==> (#[trigger] symbols@[k])@.len() == 0,
        decreases symbols.len() - i,
    {
        if !symbols[i].as_str().is_empty() {
            return true;
        }
        i += 1;
    }
    false
}

} // verus!
