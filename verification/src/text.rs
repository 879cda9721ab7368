//! Text as sequences of characters: the splitting, joining and case rules that
//! the wire codec is built from.
use vstd::prelude::*;
use vstd::string::StringExecFns;
use vstd::utf8::{decode_utf8, encode_utf8, encode_utf8_decode_utf8, valid_utf8};

verus! {

/// `String::push` appends one character to the end of the string.
pub assume_specification[ String::push ](s: &mut String, c: char)
    ensures
        final(s)@ == old(s)@.push(c),
;

/// `core::str::from_utf8` reads bytes as text: the bytes of the text that it
/// hands out are the bytes that it was given, and it hands out none where
/// the bytes are not UTF-8.
#[verifier::external_body]
fn str_from_utf8(bytes: &[u8]) -> (r: Option<&str>)
    ensures
        match r {
            Some(text) => valid_utf8(bytes@) && encode_utf8(text@) == bytes@,
            None => !valid_utf8(bytes@),
        },
{
    match core::str::from_utf8(bytes) {
        Ok(text) => Some(text),
        Err(_) => None,
    }
}

/// The text that bytes are the UTF-8 encoding of, where they are one.
pub fn utf8(bytes: &[u8]) -> (r: Option<&str>)
    ensures
        match r {
            Some(text) => valid_utf8(bytes@) && text@ == decode_utf8(bytes@) && encode_utf8(text@)
                == bytes@,
            None => !valid_utf8(bytes@),
        },
{
    let r = str_from_utf8(bytes);
    proof {
        if let Some(text) = r {
            encode_utf8_decode_utf8(text@);
        }
    }
    r
}

/// The text that bytes stand for: the text that they encode, or the empty
/// text where they encode none.
pub open spec fn text_or_empty(bytes: Seq<u8>) -> Seq<char> {
    if valid_utf8(bytes) {
        decode_utf8(bytes)
    } else {
        Seq::empty()
    }
}

/// The text that bytes stand for.
pub fn string_or_empty(bytes: &[u8]) -> (r: String)
    ensures
        r@ == text_or_empty(bytes@),
{
    match utf8(bytes) {
        Some(text) => text.to_owned(),
        None => String::new(),
    }
}

/// The views of a sequence of strings, in order.
pub open spec fn texts(v: Seq<String>) -> Seq<Seq<char>> {
    Seq::new(v.len(), |i: int| v[i]@)
}

/// The ASCII upper-case form of one character; every other character is itself.
pub open spec fn upper_char(c: char) -> char {
    if 'a' <= c && c <= 'z' {
        ((c as u8) - 32) as char
    } else {
        c
    }
}

/// A text with each of its characters in ASCII upper case.
pub open spec fn upper(s: Seq<char>) -> Seq<char> {
    Seq::new(s.len(), |i: int| upper_char(s[i]))
}

/// The number of items before the first separator, or the length of the
/// sequence where it holds none.
pub open spec fn first_separator<T>(s: Seq<T>, separator: T) -> int
    decreases s.len(),
{
    if s.len() == 0 || s[0] == separator {
        0
    } else {
        1 + first_separator(s.skip(1), separator)
    }
}

/// The pieces between the separators of a sequence, empty pieces included:
/// a sequence with `n` separators has `n + 1` pieces.
pub open spec fn split<T>(s: Seq<T>, separator: T) -> Seq<Seq<T>>
    decreases s.len(),
{
    let n = first_separator(s, separator);
    if 0 <= n < s.len() {
        seq![s.take(n)] + split(s.skip(n + 1), separator)
    } else {
        seq![s]
    }
}

/// The test that keeps the pieces which hold at least one item.
pub open spec fn occupied<T>() -> spec_fn(Seq<T>) -> bool {
    |piece: Seq<T>| piece.len() > 0
}

/// The number of characters before the first space, or the length of the
/// text where it holds no space.
pub open spec fn first_space(s: Seq<char>) -> int {
    first_separator(s, ' ')
}

/// The pieces between the spaces of a text, empty pieces included: a text with
/// `n` spaces has `n + 1` fields.
pub open spec fn fields(s: Seq<char>) -> Seq<Seq<char>> {
    split(s, ' ')
}

/// The test that keeps the pieces which hold at least one character.
pub open spec fn is_token() -> spec_fn(Seq<char>) -> bool {
    occupied::<char>()
}

/// The fields of a text that are not empty.
pub open spec fn tokens(s: Seq<char>) -> Seq<Seq<char>> {
    fields(s).filter(is_token())
}

/// The pieces with one space between each two neighbours.
pub open spec fn join(parts: Seq<Seq<char>>) -> Seq<char>
    decreases parts.len(),
{
    if parts.len() == 0 {
        Seq::empty()
    } else if parts.len() == 1 {
        parts[0]
    } else {
        parts[0] + seq![' '] + join(parts.skip(1))
    }
}

/// Whether a text begins and ends with the same quote character, single or
/// double, the two being different characters of the text.
pub open spec fn quoted(s: Seq<char>) -> bool {
    s.len() >= 2 && ((s[0] == '"' && s.last() == '"') || (s[0] == '\'' && s.last() == '\''))
}

/// A quoted text without its outer pair of quotes; any other text unchanged.
pub open spec fn unquote(s: Seq<char>) -> Seq<char> {
    if quoted(s) {
        s.subrange(1, s.len() - 1)
    } else {
        s
    }
}

/// The character of a decimal digit.
pub open spec fn digit(d: nat) -> char {
    ((48 + d) as u8) as char
}

/// A number in decimal, without sign or leading zeros.
pub open spec fn decimal(n: nat) -> Seq<char>
    decreases n,
{
    if n < 10 {
        seq![digit(n)]
    } else {
        decimal(n / 10).push(digit(n % 10))
    }
}

/// Where the first separator stands: within the sequence or at its end, on a
/// separator if within, and behind items that are none.
pub proof fn lemma_first_separator_bounds<T>(s: Seq<T>, separator: T)
    ensures
        0 <= first_separator(s, separator) <= s.len(),
        first_separator(s, separator) < s.len() ==> s[first_separator(s, separator)] == separator,
        forall|k: int| 0 <= k < first_separator(s, separator) ==> s[k] != separator,
    decreases s.len(),
{
    if s.len() == 0 || s[0] == separator {
    } else {
        lemma_first_separator_bounds(s.skip(1), separator);
        assert forall|k: int| 0 <= k < first_separator(s, separator) implies s[k] != separator by {
            if k > 0 {
                assert(s[k] == s.skip(1)[k - 1]);
            }
        }
    }
}

/// The first separator of a sequence is where a separator stands behind
/// items that are none.
pub proof fn lemma_first_separator_is<T>(s: Seq<T>, separator: T, n: int)
    requires
        0 <= n <= s.len(),
        forall|k: int| 0 <= k < n ==> s[k] != separator,
        n < s.len() ==> s[n] == separator,
    ensures
        first_separator(s, separator) == n,
    decreases s.len(),
{
    if s.len() == 0 || s[0] == separator {
    } else {
        assert forall|k: int| 0 <= k < n - 1 implies s.skip(1)[k] != separator by {
            assert(s.skip(1)[k] == s[k + 1]);
        }
        lemma_first_separator_is(s.skip(1), separator, n - 1);
    }
}

/// Where the first space stands.
pub proof fn lemma_first_space_bounds(s: Seq<char>)
    ensures
        0 <= first_space(s) <= s.len(),
        first_space(s) < s.len() ==> s[first_space(s)] == ' ',
        forall|k: int| 0 <= k < first_space(s) ==> s[k] != ' ',
{
    lemma_first_separator_bounds(s, ' ');
}

/// The first space of a text is where a space stands after characters that are
/// none.
pub proof fn lemma_first_space_is(s: Seq<char>, n: int)
    requires
        0 <= n <= s.len(),
        forall|k: int| 0 <= k < n ==> s[k] != ' ',
        n < s.len() ==> s[n] == ' ',
    ensures
        first_space(s) == n,
{
    lemma_first_separator_is(s, ' ', n);
}

/// The characters of a string slice, in order.
pub fn chars_of(s: &str) -> (r: Vec<char>)
    ensures
        r@ == s@,
{
    let mut v: Vec<char> = Vec::new();
    for c in it: s.chars()
        invariant
            v@ == it.seq().take(it.index() as int),
            it.seq() == s@,
    {
        v.push(c);
    }
    v
}

/// Whether two string slices hold the same characters.
pub fn same_text(a: &str, b: &str) -> (r: bool)
    ensures
        r == (a@ == b@),
{
    let x = chars_of(a);
    let y = chars_of(b);
    if x.len() != y.len() {
        return false;
    }
    let mut i: usize = 0;
    while i < x.len()
        invariant
            x@ == a@,
            y@ == b@,
            x.len() == y.len(),
            i <= x.len(),
            forall|k: int| 0 <= k < i ==> x@[k] == y@[k],
        decreases x.len() - i,
    {
        if x[i] != y[i] {
            return false;
        }
        i += 1;
    }
    assert(x@ =~= y@);
    true
}

/// One character in ASCII upper case.
pub fn to_upper_char(c: char) -> (r: char)
    ensures
        r == upper_char(c),
{
    if 'a' <= c && c <= 'z' {
        ((c as u8) - 32) as char
    } else {
        c
    }
}

/// A string slice in ASCII upper case.
pub fn to_upper(s: &str) -> (r: String)
    ensures
        r@ == upper(s@),
{
    let chars = chars_of(s);
    let mut out = String::new();
    let mut i: usize = 0;
    while i < chars.len()
        invariant
            chars@ == s@,
            i <= chars.len(),
            out@ == upper(s@).take(i as int),
        decreases chars.len() - i,
    {
        out.push(to_upper_char(chars[i]));
        i += 1;
        assert(out@ =~= upper(s@).take(i as int));
    }
    assert(upper(s@).take(i as int) =~= upper(s@));
    out
}

/// A copy of each string, in order.
pub fn clone_strings(v: &Vec<String>) -> (r: Vec<String>)
    ensures
        texts(r@) == texts(v@),
{
    let mut out: Vec<String> = Vec::new();
    let mut i: usize = 0;
    while i < v.len()
        invariant
            i <= v.len(),
            texts(out@) == texts(v@).take(i as int),
        decreases v.len() - i,
    {
        let piece = v[i].clone();
        proof {
            assert(texts(out@.push(piece)) =~= texts(out@).push(piece@));
            assert(texts(v@).take(i + 1) =~= texts(v@).take(i as int).push(v@[i as int]@));
        }
        out.push(piece);
        i += 1;
    }
    assert(texts(v@).take(i as int) =~= texts(v@));
    out
}

/// Something that a sequence can be split at: values of the type can be
/// told apart.
pub trait Item: Copy {
    /// Whether two values are the same.
    fn same(self, other: Self) -> (r: bool)
        ensures
            r == (self == other),
    ;
}

impl Item for char {
    fn same(self, other: Self) -> (r: bool) {
        self == other
    }
}

impl Item for u8 {
    fn same(self, other: Self) -> (r: bool) {
        self == other
    }
}

/// The views of a sequence of vectors, in order.
pub open spec fn views<T>(v: Seq<Vec<T>>) -> Seq<Seq<T>> {
    Seq::new(v.len(), |i: int| v[i]@)
}

/// The pieces that are kept of a sequence split at a separator: all of
/// them, or those that are not empty.
pub open spec fn kept<T>(s: Seq<T>, separator: T, keep_empty: bool) -> Seq<Seq<T>> {
    if keep_empty {
        split(s, separator)
    } else {
        split(s, separator).filter(occupied::<T>())
    }
}

/// The filter that keeps the pieces which count.
pub open spec fn sifted<T>(pieces: Seq<Seq<T>>, keep_empty: bool) -> Seq<Seq<T>> {
    if keep_empty {
        pieces
    } else {
        pieces.filter(occupied::<T>())
    }
}

/// Splits a vector at a separator, and keeps all pieces or those that are
/// not empty.
pub fn pieces<T: Item>(items: &Vec<T>, separator: T, keep_empty: bool) -> (r: Vec<Vec<T>>)
    ensures
        views(r@) == kept(items@, separator, keep_empty),
{
    let mut out: Vec<Vec<T>> = Vec::new();
    let mut cur: Vec<T> = Vec::new();
    let ghost mut start: int = 0;
    let ghost mut done: Seq<Seq<T>> = Seq::empty();
    let ghost s = items@;
    let mut i: usize = 0;
    proof {
        assert(s.skip(0) =~= s);
        assert(done + split(s, separator) =~= split(s, separator));
        reveal(Seq::filter);
        assert(views(out@) =~= sifted(done, keep_empty));
    }
    while i < items.len()
        invariant
            s == items@,
            0 <= start <= i <= items.len(),
            cur@ == s.subrange(start, i as int),
            forall|k: int| start <= k < i ==> s[k] != separator,
            split(s, separator) == done + split(s.skip(start), separator),
            views(out@) == sifted(done, keep_empty),
        decreases items.len() - i,
    {
        let item = items[i];
        if item.same(separator) {
            proof {
                let rest = s.skip(start);
                assert forall|k: int| 0 <= k < i - start implies rest[k] != separator by {
                    assert(rest[k] == s[start + k]);
                }
                lemma_first_separator_is(rest, separator, i - start);
                assert(rest.take(i - start) =~= cur@);
                assert(rest.skip(i - start + 1) =~= s.skip(i + 1));
                assert(done.push(cur@) + split(s.skip(i + 1), separator) =~= done + split(
                    rest,
                    separator,
                ));
                done.lemma_filter_push(cur@, occupied::<T>());
                assert(views(out@.push(cur)) =~= views(out@).push(cur@));
                done = done.push(cur@);
                start = i + 1;
            }
            if keep_empty || cur.len() > 0 {
                out.push(cur);
            }
            cur = Vec::new();
        } else {
            cur.push(item);
        }
        i += 1;
        assert(cur@ =~= s.subrange(start, i as int));
    }
    proof {
        let rest = s.skip(start);
        assert forall|k: int| 0 <= k < rest.len() implies rest[k] != separator by {
            assert(rest[k] == s[start + k]);
        }
        lemma_first_separator_is(rest, separator, rest.len() as int);
        assert(rest =~= cur@);
        assert(done.push(cur@) =~= done + split(rest, separator));
        done.lemma_filter_push(cur@, occupied::<T>());
        assert(views(out@.push(cur)) =~= views(out@).push(cur@));
    }
    if keep_empty || cur.len() > 0 {
        out.push(cur);
    }
    out
}

/// The string that holds the characters, in order.
pub fn text_of(chars: &Vec<char>) -> (r: String)
    ensures
        r@ == chars@,
{
    let mut out = String::new();
    let mut i: usize = 0;
    while i < chars.len()
        invariant
            i <= chars.len(),
            out@ == chars@.take(i as int),
        decreases chars.len() - i,
    {
        out.push(chars[i]);
        i += 1;
        assert(out@ =~= chars@.take(i as int));
    }
    assert(chars@.take(i as int) =~= chars@);
    out
}

/// The strings that hold the characters of each piece, in order.
pub fn texts_of(pieces: &Vec<Vec<char>>) -> (r: Vec<String>)
    ensures
        texts(r@) == views(pieces@),
{
    let mut out: Vec<String> = Vec::new();
    let mut i: usize = 0;
    while i < pieces.len()
        invariant
            i <= pieces.len(),
            texts(out@) == views(pieces@).take(i as int),
        decreases pieces.len() - i,
    {
        let piece = text_of(&pieces[i]);
        proof {
            assert(texts(out@.push(piece)) =~= texts(out@).push(piece@));
            assert(views(pieces@).take(i + 1) =~= views(pieces@).take(i as int).push(
                pieces@[i as int]@,
            ));
        }
        out.push(piece);
        i += 1;
    }
    assert(views(pieces@).take(i as int) =~= views(pieces@));
    out
}

/// The fields of a string slice.
pub fn split_fields(s: &str) -> (r: Vec<String>)
    ensures
        texts(r@) == fields(s@),
{
    texts_of(&pieces(&chars_of(s), ' ', true))
}

/// The tokens of a string slice: its fields without the empty ones.
pub fn split_tokens(s: &str) -> (r: Vec<String>)
    ensures
        texts(r@) == tokens(s@),
{
    texts_of(&pieces(&chars_of(s), ' ', false))
}

/// The strings from position `from` on, with one space between each two
/// neighbours. Behind the last string there is nothing to join.
pub fn join_from(parts: &Vec<String>, from: usize) -> (r: String)
    ensures
        r@ == join(
            if from <= parts.len() {
                texts(parts@).skip(from as int)
            } else {
                Seq::empty()
            },
        ),
{
    let mut out = String::new();
    if from > parts.len() {
        return out;
    }
    let mut i: usize = parts.len();
    let ghost all = texts(parts@);
    proof {
        assert(all.skip(i as int) =~= Seq::<Seq<char>>::empty());
    }
    while i > from
        invariant
            from <= i <= parts.len(),
            all == texts(parts@),
            out@ == join(all.skip(i as int)),
        decreases i,
    {
        i -= 1;
        let mut piece = parts[i].clone();
        proof {
            let tail = all.skip(i as int);
            assert(tail[0] == parts@[i as int]@);
            assert(tail.skip(1) =~= all.skip(i + 1));
        }
        if i + 1 < parts.len() {
            piece.push(' ');
            piece.append(out.as_str());
            assert(piece@ =~= parts@[i as int]@ + seq![' '] + out@);
        }
        out = piece;
    }
    out
}

/// A string slice without its outer pair of quotes, where it has one.
pub fn strip_quotes(s: &str) -> (r: String)
    ensures
        r@ == unquote(s@),
{
    let chars = chars_of(s);
    let n = chars.len();
    if n >= 2 && ((chars[0] == '"' && chars[n - 1] == '"') || (chars[0] == '\'' && chars[n - 1]
        == '\'')) {
        let mut out = String::new();
        let mut i: usize = 1;
        while i < n - 1
            invariant
                chars@ == s@,
                n == chars.len(),
                n >= 2,
                1 <= i <= n - 1,
                out@ == s@.subrange(1, i as int),
            decreases n - i,
        {
            out.push(chars[i]);
            i += 1;
            assert(out@ =~= s@.subrange(1, i as int));
        }
        out
    } else {
        s.to_owned()
    }
}

/// A number as decimal text.
pub fn u64_to_decimal(n: u64) -> (r: String)
    ensures
        r@ == decimal(n as nat),
    decreases n,
{
    if n < 10 {
        let mut out = String::new();
        out.push((48 + (n as u8)) as char);
        assert(out@ =~= seq![digit(n as nat)]);
        out
    } else {
        let mut out = u64_to_decimal(n / 10);
        out.push((48 + ((n % 10) as u8)) as char);
        out
    }
}

/// A piece without a space, a space, and more text: the piece is the first
/// field, and the fields of the rest follow.
pub proof fn lemma_fields_prepend(a: Seq<char>, b: Seq<char>)
    requires
        !a.contains(' '),
    ensures
        fields(a + seq![' '] + b) == seq![a] + fields(b),
{
    let s = a + seq![' '] + b;
    assert forall|k: int| 0 <= k < a.len() implies s[k] != ' ' by {
        assert(s[k] == a[k]);
        assert(a.contains(a[k]));
    }
    lemma_first_space_is(s, a.len() as int);
    assert(s.take(a.len() as int) =~= a);
    assert(s.skip(a.len() as int + 1) =~= b);
}

/// A text without a space is its own single field.
pub proof fn lemma_fields_single(a: Seq<char>)
    requires
        !a.contains(' '),
    ensures
        fields(a) == seq![a],
{
    assert forall|k: int| 0 <= k < a.len() implies a[k] != ' ' by {
        assert(a.contains(a[k]));
    }
    lemma_first_space_is(a, a.len() as int);
}

/// Splitting undoes joining: pieces that hold no space, joined and split
/// again, are the same pieces.
pub proof fn lemma_fields_join(parts: Seq<Seq<char>>)
    requires
        parts.len() >= 1,
        forall|i: int| 0 <= i < parts.len() ==> !(#[trigger] parts[i]).contains(' '),
    ensures
        fields(join(parts)) == parts,
    decreases parts.len(),
{
    if parts.len() == 1 {
        lemma_fields_single(parts[0]);
        assert(seq![parts[0]] =~= parts);
    } else {
        let rest = parts.skip(1);
        assert forall|i: int| 0 <= i < rest.len() implies !(#[trigger] rest[i]).contains(' ') by {
            assert(rest[i] == parts[i + 1]);
        }
        lemma_fields_join(rest);
        lemma_fields_prepend(parts[0], join(rest));
        assert(seq![parts[0]] + rest =~= parts);
    }
}

/// Joining undoes splitting: the fields of a text, joined, are the text.
pub proof fn lemma_join_fields(s: Seq<char>)
    ensures
        join(fields(s)) == s,
        fields(s).len() >= 1,
        forall|i: int| 0 <= i < fields(s).len() ==> !(#[trigger] fields(s)[i]).contains(' '),
    decreases s.len(),
{
    let n = first_space(s);
    lemma_first_space_bounds(s);
    if 0 <= n < s.len() {
        let rest = s.skip(n + 1);
        lemma_join_fields(rest);
        let f = fields(s);
        assert(f.skip(1) =~= fields(rest));
        assert(f[0] == s.take(n));
        assert(s.take(n) + seq![' '] + rest =~= s);
        assert forall|i: int| 0 <= i < f.len() implies !(#[trigger] f[i]).contains(' ') by {
            if i > 0 {
                assert(f[i] == fields(rest)[i - 1]);
            }
        }
    } else {
        assert(fields(s) =~= seq![s]);
    }
}

/// Pieces that each hold a character pass the token test unchanged.
pub proof fn lemma_filter_tokens(parts: Seq<Seq<char>>)
    requires
        forall|i: int| 0 <= i < parts.len() ==> (#[trigger] parts[i]).len() > 0,
    ensures
        parts.filter(is_token()) == parts,
    decreases parts.len(),
{
    reveal(Seq::filter);
    if parts.len() > 0 {
        lemma_filter_tokens(parts.drop_last());
        assert(parts.drop_last().push(parts.last()) =~= parts);
    }
}

/// Words that are not empty and hold no space, joined by single spaces, are
/// the tokens of the line they make.
pub proof fn lemma_tokens_join(parts: Seq<Seq<char>>)
    requires
        parts.len() >= 1,
        forall|i: int|
            0 <= i < parts.len() ==> (#[trigger] parts[i]).len() > 0 && !parts[i].contains(' '),
    ensures
        tokens(join(parts)) == parts,
{
    lemma_fields_join(parts);
    lemma_filter_tokens(parts);
}

/// A number in decimal is made of digits, and of one at least.
pub proof fn lemma_decimal_digits(n: nat)
    ensures
        decimal(n).len() >= 1,
        forall|i: int| 0 <= i < decimal(n).len() ==> '0' <= #[trigger] decimal(n)[i] <= '9',
    decreases n,
{
    if n >= 10 {
        lemma_decimal_digits(n / 10);
    }
}

} // verus!
