//! Text with inline image icons.
//!
//! A rich text string contains tags such as `:south:`: a colon, one or more
//! characters that are neither colons nor whitespace, and a closing colon.
//! Tags are found left to right without overlap; each one that the resolver
//! knows becomes an image, the others stay literal text. Line breaks split
//! the text into lines.
use crate::text::chars_of;
use vstd::prelude::*;
use vstd::string::*;
use vstd::std_specs::iter::IteratorSpec;

verus! {

broadcast use vstd::string::group_string_axioms;

/// Unicode `White_Space`.
pub open spec fn is_whitespace(c: char) -> bool {
    let u = c as u32;
    ||| 0x09 <= u <= 0x0D
    ||| u == 0x20
    ||| u == 0x85
    ||| u == 0xA0
    ||| u == 0x1680
    ||| 0x2000 <= u <= 0x200A
    ||| u == 0x2028
    ||| u == 0x2029
    ||| u == 0x202F
    ||| u == 0x205F
    ||| u == 0x3000
}

/// Whether `c` may stand inside a tag.
pub open spec fn is_tag_char(c: char) -> bool {
    c != ':' && !is_whitespace(c)
}

/// Index of the colon that closes a tag body starting at `k`, or `-1` when a
/// whitespace character or the end of the text comes first.
pub open spec fn closing_from(s: Seq<char>, k: int) -> int
    decreases s.len() - k,
{
    if k < 0 || k >= s.len() {
        -1
    } else if s[k] == ':' {
        k
    } else if is_whitespace(s[k]) {
        -1
    } else {
        closing_from(s, k + 1)
    }
}

/// The closing colon found from `k` is the first colon from `k` on, and only
/// tag characters stand before it.
pub proof fn lemma_closing_from(s: Seq<char>, k: int)
    requires
        0 <= k,
    ensures
        closing_from(s, k) == -1 || (k <= closing_from(s, k) < s.len() && s[closing_from(s, k)]
            == ':'),
        closing_from(s, k) != -1 ==> forall|j: int|
            k <= j < closing_from(s, k) ==> #[trigger] is_tag_char(s[j]),
    decreases s.len() - k,
{
    if k < s.len() && s[k] != ':' && !is_whitespace(s[k]) {
        lemma_closing_from(s, k + 1);
    }
}

/// Index of the closing colon of the tag that starts at `i`, or `-1` when no
/// tag starts there.
pub open spec fn tag_end(s: Seq<char>, i: int) -> int {
    if 0 <= i < s.len() && s[i] == ':' {
        let j = closing_from(s, i + 1);
        if j > i + 1 {
            j
        } else {
            -1
        }
    } else {
        -1
    }
}

/// A piece of parsed rich text, by content.
pub enum TokenView {
    Text(Seq<char>),
    Tag(Seq<char>),
    Newline,
}

/// The pending text `s[start..k]` as a token, when it is not empty.
pub open spec fn flush(s: Seq<char>, start: int, k: int) -> Seq<TokenView> {
    if start < k {
        seq![TokenView::Text(s.subrange(start, k))]
    } else {
        seq![]
    }
}

/// The tokens of `s` from scan position `k`, with the text since `start` not
/// yet emitted: at each position a tag is taken when one starts there, a line
/// break ends the pending text, and any other character joins it.
pub open spec fn tokens_from(s: Seq<char>, start: int, k: int) -> Seq<TokenView>
    decreases s.len() - k,
{
    if k < start || k >= s.len() {
        flush(s, start, s.len() as int)
    } else if tag_end(s, k) >= 0 {
        let e = tag_end(s, k);
        proof {
            lemma_closing_from(s, k + 1);
        }
        flush(s, start, k) + seq![TokenView::Tag(s.subrange(k + 1, e))] + tokens_from(
            s,
            e + 1,
            e + 1,
        )
    } else if s[k] == '\n' {
        flush(s, start, k) + seq![TokenView::Newline] + tokens_from(s, k + 1, k + 1)
    } else {
        tokens_from(s, start, k + 1)
    }
}

/// The tokens of a whole rich text string.
pub open spec fn tokens(s: Seq<char>) -> Seq<TokenView> {
    tokens_from(s, 0, 0)
}

/// A piece of parsed rich text, borrowing from the input.
#[derive(Debug, Clone, Copy, PartialEq)]
pub enum Token<'a> {
    Text(&'a str),
    /// A tag: `whole` is the tag with its colons, `name` the text between.
    Tag { whole: &'a str, name: &'a str },
    Newline,
}

impl<'a> Token<'a> {
    /// The content of a token. A tag's `whole` is not part of it: it is fixed
    /// by the name (see [`Token::well_formed`], which `tokenize` ensures).
    pub open spec fn view(self) -> TokenView {
        match self {
            Token::Text(t) => TokenView::Text(t@),
            Token::Tag { name, .. } => TokenView::Tag(name@),
            Token::Newline => TokenView::Newline,
        }
    }

    /// A tag's `whole` is its name between two colons.
    pub open spec fn well_formed(self) -> bool {
        self matches Token::Tag { whole, name } ==> whole@ == seq![':'] + name@ + seq![':']
    }
}

pub open spec fn token_views<'a>(ts: Seq<Token<'a>>) -> Seq<TokenView> {
    ts.map_values(|t: Token<'a>| t.view())
}

/// A piece of rich text as it is laid out.
#[derive(Debug, Clone, PartialEq)]
pub enum TextSegment<'a, H> {
    Text(&'a str),
    Image(H),
    Newline,
}

fn is_whitespace_char(c: char) -> (r: bool)
    ensures
        r == is_whitespace(c),
{
    let u = c as u32;
    (0x09 <= u && u <= 0x0D) || u == 0x20 || u == 0x85 || u == 0xA0 || u == 0x1680 || (0x2000
        <= u && u <= 0x200A) || u == 0x2028 || u == 0x2029 || u == 0x202F || u == 0x205F || u
        == 0x3000
}

fn closing_colon(chars: &Vec<char>, from: usize) -> (r: Option<usize>)
    ensures
        match r {
            Some(j) => closing_from(chars@, from as int) == j as int,
            None => closing_from(chars@, from as int) == -1,
        },
{
    let n = chars.len();
    let mut k = from;
    if k >= n {
        return None;
    }
    while k < n
        invariant
            from <= k,
            n == chars@.len(),
            closing_from(chars@, from as int) == closing_from(chars@, k as int),
        decreases n - k,
    {
        let c = chars[k];
        if c == ':' {
            return Some(k);
        }
        if is_whitespace_char(c) {
            return None;
        }
        k = k + 1;
    }
    None
}

fn tag_end_at(chars: &Vec<char>, k: usize) -> (r: Option<usize>)
    requires
        k < chars.len(),
    ensures
        match r {
            Some(e) => tag_end(chars@, k as int) == e as int,
            None => tag_end(chars@, k as int) == -1,
        },
{
    if chars[k] != ':' {
        return None;
    }
    match closing_colon(chars, k + 1) {
        Some(j) => if j > k + 1 {
            Some(j)
        } else {
            None
        },
        None => None,
    }
}

proof fn lemma_views_push<'a>(ts: Seq<Token<'a>>, t: Token<'a>)
    ensures
        token_views(ts.push(t)) == token_views(ts).push(t.view()),
{
    assert(token_views(ts.push(t)) =~= token_views(ts).push(t.view()));
}

/// Splits rich text into text, tag and line-break tokens.
pub fn tokenize<'a>(input: &'a str) -> (ts: Vec<Token<'a>>)
    ensures
        token_views(ts@) == tokens(input@),
        forall|i: int| 0 <= i < ts@.len() ==> (#[trigger] ts@[i]).well_formed(),
{
    let chars = chars_of(input);
    let n = chars.len();
    let ghost s = input@;
    let mut out: Vec<Token<'a>> = Vec::new();
    let mut start: usize = 0;
    let mut k: usize = 0;
    assert(token_views(out@) + tokens_from(s, 0, 0) =~= tokens(s));
    while k < n
        invariant
            start <= k <= n,
            n == s.len(),
            chars@ == s,
            s == input@,
            token_views(out@) + tokens_from(s, start as int, k as int) == tokens(s),
            forall|i: int| 0 <= i < out@.len() ==> (#[trigger] out@[i]).well_formed(),
        decreases n - k,
    {
        let ghost before = token_views(out@);
        match tag_end_at(&chars, k) {
            Some(e) => {
                proof {
                    lemma_closing_from(s, k + 1);
                }
                let ghost mid = token_views(out@);
                if start < k {
                    let t = Token::Text(input.substring_char(start, k));
                    proof {
                        lemma_views_push(out@, t);
                    }
                    out.push(t);
                }
                assert(token_views(out@) == mid + flush(s, start as int, k as int));
                let whole = input.substring_char(k, e + 1);
                let name = input.substring_char(k + 1, e);
                assert(whole@ =~= seq![':'] + name@ + seq![':']);
                let t = Token::Tag { whole, name };
                proof {
                    lemma_views_push(out@, t);
                }
                out.push(t);
                assert(token_views(out@) + tokens_from(s, e + 1, e + 1) =~= before
                    + tokens_from(s, start as int, k as int));
                start = e + 1;
                k = e + 1;
            },
            None => {
                if chars[k] == '\n' {
                    let ghost mid = token_views(out@);
                    if start < k {
                        let t = Token::Text(input.substring_char(start, k));
                        proof {
                            lemma_views_push(out@, t);
                        }
                        out.push(t);
                    }
                    assert(token_views(out@) == mid + flush(s, start as int, k as int));
                    proof {
                        lemma_views_push(out@, Token::Newline);
                    }
                    out.push(Token::Newline);
                    assert(token_views(out@) + tokens_from(s, k + 1, k + 1) =~= before
                        + tokens_from(s, start as int, k as int));
                    start = k + 1;
                    k = k + 1;
                } else {
                    k = k + 1;
                }
            },
        }
    }
    let ghost mid = token_views(out@);
    if start < n {
        let t = Token::Text(input.substring_char(start, n));
        proof {
            lemma_views_push(out@, t);
        }
        out.push(t);
    }
    assert(token_views(out@) =~= mid + flush(s, start as int, n as int));
    out
}

/// Whether `seg` is what `tok` becomes under `resolver`: text and line breaks
/// stay as they are; a tag becomes the image the resolver gives for its name,
/// or its own literal text when the resolver gives none.
pub open spec fn resolved<'a, H, F: Fn(&str) -> Option<H>>(
    seg: TextSegment<'a, H>,
    tok: TokenView,
    resolver: F,
) -> bool {
    match tok {
        TokenView::Text(t) => seg matches TextSegment::Text(x) && x@ == t,
        TokenView::Newline => seg is Newline,
        TokenView::Tag(name) => match seg {
            TextSegment::Image(h) => exists|q: &str| q@ == name && resolver.ensures((q,), Some(h)),
            TextSegment::Text(x) => x@ == seq![':'] + name + seq![':'] && exists|q: &str|
                q@ == name && resolver.ensures((q,), None),
            TextSegment::Newline => false,
        },
    }
}

/// Parses rich text into segments, replacing each tag that `resolver` knows
/// by its image; unknown tags are kept as literal text.
pub fn parse<'a, H, F: Fn(&str) -> Option<H>>(input: &'a str, resolver: F) -> (segs: Vec<
    TextSegment<'a, H>,
>)
    requires
        forall|q: &str| resolver.requires((q,)),
    ensures
        segs@.len() == tokens(input@).len(),
        forall|i: int|
            0 <= i < segs@.len() ==> resolved(#[trigger] segs@[i], tokens(input@)[i], resolver),
{
    let ts = tokenize(input);
    let mut segs: Vec<TextSegment<'a, H>> = Vec::new();
    let n = ts.len();
    let mut i: usize = 0;
    while i < n
        invariant
            i <= n,
            n == ts@.len(),
            token_views(ts@) == tokens(input@),
            forall|j: int| 0 <= j < ts@.len() ==> (#[trigger] ts@[j]).well_formed(),
            forall|q: &str| resolver.requires((q,)),
            segs@.len() == i,
            forall|j: int|
                0 <= j < i ==> resolved(#[trigger] segs@[j], tokens(input@)[j], resolver),
        decreases n - i,
    {
        let t = ts[i];
        assert(token_views(ts@)[i as int] == t.view());
        assert(t.well_formed());
        let seg = match t {
            Token::Text(x) => TextSegment::Text(x),
            Token::Newline => TextSegment::Newline,
            Token::Tag { whole, name } => match resolver(name) {
                Some(h) => TextSegment::Image(h),
                None => TextSegment::Text(whole),
            },
        };
        segs.push(seg);
        i = i + 1;
    }
    segs
}

/// The number of line breaks among `segs`.
pub open spec fn newline_segments<'a, H>(segs: Seq<TextSegment<'a, H>>) -> nat
    decreases segs.len(),
{
    if segs.len() == 0 {
        0
    } else {
        newline_segments(segs.drop_last()) + if segs.last() is Newline {
            1nat
        } else {
            0nat
        }
    }
}

/// The number of lines in parsed rich text: one more than its line breaks.
pub fn line_count<'a, H>(segs: &Vec<TextSegment<'a, H>>) -> (n: usize)
    requires
        segs@.len() < usize::MAX,
    ensures
        n == newline_segments(segs@) + 1,
{
    let mut count: usize = 0;
    let len = segs.len();
    let mut i: usize = 0;
    while i < len
        invariant
            i <= len,
            len == segs@.len(),
            len < usize::MAX,
            count == newline_segments(segs@.subrange(0, i as int)),
            count <= i,
        decreases len - i,
    {
        assert(segs@.subrange(0, i + 1).drop_last() =~= segs@.subrange(0, i as int));
        if let TextSegment::Newline = &segs[i] {
            count = count + 1;
        }
        i = i + 1;
    }
    assert(segs@.subrange(0, len as int) =~= segs@);
    count + 1
}

/// Text with inline image icons, parsed once when it is created.
pub struct RichText<'a, H> {
    segments: Vec<TextSegment<'a, H>>,
}

impl<'a, H> RichText<'a, H> {
    pub closed spec fn segments_view(&self) -> Seq<TextSegment<'a, H>> {
        self.segments@
    }

    /// Parses `string`; tags like `:name:` whose name `resolver` maps to an
    /// image become that image.
    pub fn new<F: Fn(&str) -> Option<H>>(string: &'a str, resolver: F) -> (r: Self)
        requires
            forall|q: &str| resolver.requires((q,)),
        ensures
            r.segments_view().len() == tokens(string@).len(),
            forall|i: int|
                0 <= i < r.segments_view().len() ==> resolved(
                    #[trigger] r.segments_view()[i],
                    tokens(string@)[i],
                    resolver,
                ),
    {
        RichText { segments: parse(string, resolver) }
    }

    /// The parsed segments.
    pub fn segments(&self) -> (segs: &Vec<TextSegment<'a, H>>)
        ensures
            segs@ == self.segments_view(),
    {
        &self.segments
    }

    /// The number of lines in the parsed content.
    pub fn line_count(&self) -> (n: usize)
        requires
            self.segments_view().len() < usize::MAX,
        ensures
            n == newline_segments(self.segments_view()) + 1,
    {
        line_count(&self.segments)
    }
}

/// The text a token stands for.
pub open spec fn token_text(t: TokenView) -> Seq<char> {
    match t {
        TokenView::Text(x) => x,
        TokenView::Tag(name) => seq![':'] + name + seq![':'],
        TokenView::Newline => seq!['\n'],
    }
}

/// The text a token sequence stands for.
pub open spec fn flatten(ts: Seq<TokenView>) -> Seq<char>
    decreases ts.len(),
{
    if ts.len() == 0 {
        seq![]
    } else {
        flatten(ts.drop_last()) + token_text(ts.last())
    }
}

/// The number of line-break tokens.
pub open spec fn newline_tokens(ts: Seq<TokenView>) -> nat
    decreases ts.len(),
{
    if ts.len() == 0 {
        0
    } else {
        newline_tokens(ts.drop_last()) + if ts.last() is Newline {
            1nat
        } else {
            0nat
        }
    }
}

/// The number of line breaks in a text.
pub open spec fn newlines(s: Seq<char>) -> nat
    decreases s.len(),
{
    if s.len() == 0 {
        0
    } else {
        newlines(s.drop_last()) + if s.last() == '\n' {
            1nat
        } else {
            0nat
        }
    }
}

proof fn lemma_single(t: TokenView)
    ensures
        flatten(seq![t]) == token_text(t),
        newline_tokens(seq![t]) == if t is Newline {
            1nat
        } else {
            0nat
        },
{
    let one = seq![t];
    assert(one.drop_last() =~= Seq::<TokenView>::empty());
    assert(one.last() == t);
    assert(flatten(Seq::<TokenView>::empty()) == Seq::<char>::empty());
    assert(newline_tokens(Seq::<TokenView>::empty()) == 0);
    assert(Seq::<char>::empty() + token_text(t) =~= token_text(t));
}

proof fn lemma_flatten_concat(a: Seq<TokenView>, b: Seq<TokenView>)
    ensures
        flatten(a + b) == flatten(a) + flatten(b),
    decreases b.len(),
{
    if b.len() == 0 {
        assert(a + b =~= a);
        assert(flatten(a) + flatten(b) =~= flatten(a));
    } else {
        lemma_flatten_concat(a, b.drop_last());
        assert((a + b).drop_last() =~= a + b.drop_last());
        assert(flatten(a) + flatten(b) =~= flatten(a) + flatten(b.drop_last()) + token_text(
            b.last(),
        ));
    }
}

proof fn lemma_newline_tokens_concat(a: Seq<TokenView>, b: Seq<TokenView>)
    ensures
        newline_tokens(a + b) == newline_tokens(a) + newline_tokens(b),
    decreases b.len(),
{
    if b.len() == 0 {
        assert(a + b =~= a);
    } else {
        lemma_newline_tokens_concat(a, b.drop_last());
        assert((a + b).drop_last() =~= a + b.drop_last());
    }
}

proof fn lemma_newlines_concat(a: Seq<char>, b: Seq<char>)
    ensures
        newlines(a + b) == newlines(a) + newlines(b),
    decreases b.len(),
{
    if b.len() == 0 {
        assert(a + b =~= a);
    } else {
        lemma_newlines_concat(a, b.drop_last());
        assert((a + b).drop_last() =~= a + b.drop_last());
    }
}

proof fn lemma_newlines_single(c: char)
    ensures
        newlines(seq![c]) == if c == '\n' {
            1nat
        } else {
            0nat
        },
{
    let one = seq![c];
    assert(one.drop_last() =~= Seq::<char>::empty());
    assert(one.last() == c);
    assert(newlines(Seq::<char>::empty()) == 0);
}

proof fn lemma_no_newlines(s: Seq<char>)
    requires
        forall|j: int| 0 <= j < s.len() ==> s[j] != '\n',
    ensures
        newlines(s) == 0,
    decreases s.len(),
{
    if s.len() > 0 {
        lemma_no_newlines(s.drop_last());
    }
}

proof fn lemma_tokens_from_flatten(s: Seq<char>, start: int, k: int)
    requires
        0 <= start <= k <= s.len(),
    ensures
        flatten(tokens_from(s, start, k)) == s.subrange(start, s.len() as int),
    decreases s.len() - k,
{
    let n = s.len() as int;
    if k >= n {
        if start < n {
            lemma_single(TokenView::Text(s.subrange(start, n)));
        } else {
            assert(s.subrange(start, n) =~= Seq::<char>::empty());
        }
    } else if tag_end(s, k) >= 0 {
        let e = tag_end(s, k);
        lemma_closing_from(s, k + 1);
        lemma_tokens_from_flatten(s, e + 1, e + 1);
        let head = flush(s, start, k) + seq![TokenView::Tag(s.subrange(k + 1, e))];
        lemma_flatten_concat(head, tokens_from(s, e + 1, e + 1));
        lemma_flatten_concat(flush(s, start, k), seq![TokenView::Tag(s.subrange(k + 1, e))]);
        lemma_single(TokenView::Tag(s.subrange(k + 1, e)));
        if start < k {
            lemma_single(TokenView::Text(s.subrange(start, k)));
        }
        assert(s.subrange(start, n) =~= s.subrange(start, k) + (seq![':'] + s.subrange(k + 1, e)
            + seq![':']) + s.subrange(e + 1, n));
    } else if s[k] == '\n' {
        lemma_tokens_from_flatten(s, k + 1, k + 1);
        let head = flush(s, start, k) + seq![TokenView::Newline];
        lemma_flatten_concat(head, tokens_from(s, k + 1, k + 1));
        lemma_flatten_concat(flush(s, start, k), seq![TokenView::Newline]);
        lemma_single(TokenView::Newline);
        if start < k {
            lemma_single(TokenView::Text(s.subrange(start, k)));
        }
        assert(s.subrange(start, n) =~= s.subrange(start, k) + seq!['\n'] + s.subrange(k + 1, n));
    } else {
        lemma_tokens_from_flatten(s, start, k + 1);
    }
}

/// Parsing loses nothing: the texts of the tokens, with each tag written
/// back between its colons and each line break as `\n`, join to the input.
pub proof fn lemma_tokens_join_to_input(s: Seq<char>)
    ensures
        flatten(tokens(s)) == s,
{
    lemma_tokens_from_flatten(s, 0, 0);
    assert(s.subrange(0, s.len() as int) =~= s);
}

proof fn lemma_tokens_from_newlines(s: Seq<char>, start: int, k: int)
    requires
        0 <= start <= k <= s.len(),
    ensures
        newline_tokens(tokens_from(s, start, k)) == newlines(s.subrange(k, s.len() as int)),
    decreases s.len() - k,
{
    let n = s.len() as int;
    if k >= n {
        assert(s.subrange(k, n) =~= Seq::<char>::empty());
        assert(newlines(Seq::<char>::empty()) == 0);
        assert(newline_tokens(Seq::<TokenView>::empty()) == 0);
        if start < n {
            lemma_single(TokenView::Text(s.subrange(start, n)));
        }
    } else if tag_end(s, k) >= 0 {
        let e = tag_end(s, k);
        lemma_closing_from(s, k + 1);
        lemma_tokens_from_newlines(s, e + 1, e + 1);
        let tag = seq![TokenView::Tag(s.subrange(k + 1, e))];
        lemma_newline_tokens_concat(flush(s, start, k) + tag, tokens_from(s, e + 1, e + 1));
        lemma_newline_tokens_concat(flush(s, start, k), tag);
        lemma_single(TokenView::Tag(s.subrange(k + 1, e)));
        if start < k {
            lemma_single(TokenView::Text(s.subrange(start, k)));
        }
        let body = s.subrange(k, e + 1);
        assert forall|j: int| 0 <= j < body.len() implies body[j] != '\n' by {
            if k < k + j < e {
                assert(is_tag_char(s[k + j]));
            }
        }
        lemma_no_newlines(body);
        lemma_newlines_concat(body, s.subrange(e + 1, n));
        assert(s.subrange(k, n) =~= body + s.subrange(e + 1, n));
    } else if s[k] == '\n' {
        lemma_tokens_from_newlines(s, k + 1, k + 1);
        let nl = seq![TokenView::Newline];
        lemma_newline_tokens_concat(flush(s, start, k) + nl, tokens_from(s, k + 1, k + 1));
        lemma_newline_tokens_concat(flush(s, start, k), nl);
        lemma_single(TokenView::Newline);
        if start < k {
            lemma_single(TokenView::Text(s.subrange(start, k)));
        }
        lemma_newlines_concat(seq!['\n'], s.subrange(k + 1, n));
        lemma_newlines_single('\n');
        assert(s.subrange(k, n) =~= seq!['\n'] + s.subrange(k + 1, n));
    } else {
        lemma_tokens_from_newlines(s, start, k + 1);
        lemma_newlines_concat(seq![s[k]], s.subrange(k + 1, n));
        lemma_newlines_single(s[k]);
        assert(s.subrange(k, n) =~= seq![s[k]] + s.subrange(k + 1, n));
    }
}

/// Parsed rich text has one line more than its input has line breaks,
/// whatever the resolver gives for its tags.
pub proof fn lemma_line_count_follows_newlines<'a, H, F: Fn(&str) -> Option<H>>(
    s: Seq<char>,
    segs: Seq<TextSegment<'a, H>>,
    resolver: F,
)
    requires
        segs.len() == tokens(s).len(),
        forall|i: int| 0 <= i < segs.len() ==> resolved(#[trigger] segs[i], tokens(s)[i], resolver),
    ensures
        newline_segments(segs) + 1 == newlines(s) + 1,
{
    lemma_tokens_from_newlines(s, 0, 0);
    assert(s.subrange(0, s.len() as int) =~= s);
    lemma_segments_newlines(segs, tokens(s), resolver);
}

proof fn lemma_segments_newlines<'a, H, F: Fn(&str) -> Option<H>>(
    segs: Seq<TextSegment<'a, H>>,
    ts: Seq<TokenView>,
    resolver: F,
)
    requires
        segs.len() == ts.len(),
        forall|i: int| 0 <= i < segs.len() ==> resolved(#[trigger] segs[i], ts[i], resolver),
    ensures
        newline_segments(segs) == newline_tokens(ts),
    decreases segs.len(),
{
    if segs.len() > 0 {
        let last = (segs.len() - 1) as int;
        assert(resolved(segs[last], ts[last], resolver));
        assert forall|i: int| 0 <= i < segs.drop_last().len() implies resolved(
            #[trigger] segs.drop_last()[i],
            ts.drop_last()[i],
            resolver,
        ) by {
            assert(resolved(segs[i], ts[i], resolver));
        }
        lemma_segments_newlines(segs.drop_last(), ts.drop_last(), resolver);
    }
}

/// A token of text holds characters and no line break; a tag's name holds
/// tag characters only.
pub open spec fn token_shape(t: TokenView) -> bool {
    match t {
        TokenView::Text(x) => x.len() > 0 && forall|j: int| 0 <= j < x.len() ==> #[trigger] x[j] != '\n',
        TokenView::Tag(name) => name.len() > 0 && forall|j: int|
            0 <= j < name.len() ==> is_tag_char(#[trigger] name[j]),
        TokenView::Newline => true,
    }
}

proof fn lemma_tokens_from_shape(s: Seq<char>, start: int, k: int)
    requires
        0 <= start <= k <= s.len(),
        forall|j: int| start <= j < k ==> #[trigger] s[j] != '\n',
    ensures
        forall|i: int|
            0 <= i < tokens_from(s, start, k).len() ==> token_shape(
                #[trigger] tokens_from(s, start, k)[i],
            ),
    decreases s.len() - k,
{
    let n = s.len() as int;
    if k >= n {
        assert(tokens_from(s, start, k) == flush(s, start, n));
        if start < n {
            let x = s.subrange(start, n);
            assert(token_shape(TokenView::Text(x)));
            assert(flush(s, start, n)[0] == TokenView::Text(x));
        }
    } else if tag_end(s, k) >= 0 {
        let e = tag_end(s, k);
        lemma_closing_from(s, k + 1);
        lemma_tokens_from_shape(s, e + 1, e + 1);
        let head = flush(s, start, k);
        let name = s.subrange(k + 1, e);
        assert(token_shape(TokenView::Tag(name))) by {
            assert forall|j: int| 0 <= j < name.len() implies is_tag_char(#[trigger] name[j]) by {
                assert(name[j] == s[k + 1 + j]);
            }
        }
        if start < k {
            assert(token_shape(TokenView::Text(s.subrange(start, k))));
        }
        let rest = tokens_from(s, e + 1, e + 1);
        let all = head + seq![TokenView::Tag(name)] + rest;
        assert(tokens_from(s, start, k) == all);
        assert forall|i: int| 0 <= i < all.len() implies token_shape(#[trigger] all[i]) by {
            if i >= head.len() + 1 {
                assert(all[i] == rest[i - head.len() - 1]);
            } else if i == head.len() {
                assert(all[i] == TokenView::Tag(name));
            } else {
                assert(all[i] == head[i]);
            }
        }
    } else if s[k] == '\n' {
        lemma_tokens_from_shape(s, k + 1, k + 1);
        let head = flush(s, start, k);
        if start < k {
            assert(token_shape(TokenView::Text(s.subrange(start, k))));
        }
        let rest = tokens_from(s, k + 1, k + 1);
        let all = head + seq![TokenView::Newline] + rest;
        assert(tokens_from(s, start, k) == all);
        assert forall|i: int| 0 <= i < all.len() implies token_shape(#[trigger] all[i]) by {
            if i >= head.len() + 1 {
                assert(all[i] == rest[i - head.len() - 1]);
            } else if i < head.len() {
                assert(all[i] == head[i]);
            }
        }
    } else {
        lemma_tokens_from_shape(s, start, k + 1);
        assert(tokens_from(s, start, k) == tokens_from(s, start, k + 1));
    }
}

/// The text a segment stands for, given the token it came from: an image
/// stands for its tag written between colons.
pub open spec fn segment_text<'a, H>(seg: TextSegment<'a, H>, tok: TokenView) -> Seq<char> {
    match seg {
        TextSegment::Text(x) => x@,
        TextSegment::Newline => seq!['\n'],
        TextSegment::Image(_) => token_text(tok),
    }
}

/// The text a segment sequence stands for, given the tokens it came from.
pub open spec fn segments_text<'a, H>(segs: Seq<TextSegment<'a, H>>, ts: Seq<TokenView>) -> Seq<
    char,
>
    decreases segs.len(),
{
    if segs.len() == 0 {
        seq![]
    } else {
        segments_text(segs.drop_last(), ts.drop_last()) + segment_text(
            segs.last(),
            ts[segs.len() - 1],
        )
    }
}

proof fn lemma_segments_text<'a, H, F: Fn(&str) -> Option<H>>(
    segs: Seq<TextSegment<'a, H>>,
    ts: Seq<TokenView>,
    resolver: F,
)
    requires
        segs.len() == ts.len(),
        forall|i: int| 0 <= i < segs.len() ==> resolved(#[trigger] segs[i], ts[i], resolver),
    ensures
        segments_text(segs, ts) == flatten(ts),
    decreases segs.len(),
{
    if segs.len() > 0 {
        let last = (segs.len() - 1) as int;
        assert(resolved(segs[last], ts[last], resolver));
        assert forall|i: int| 0 <= i < segs.drop_last().len() implies resolved(
            #[trigger] segs.drop_last()[i],
            ts.drop_last()[i],
            resolver,
        ) by {
            assert(resolved(segs[i], ts[i], resolver));
        }
        lemma_segments_text(segs.drop_last(), ts.drop_last(), resolver);
        assert(ts.last() == ts[last]);
    }
}

/// Parsing keeps the text: written back (text as it is, each line break as
/// `\n`, each image as its tag between colons), the segments join to the
/// input; no text segment is empty or holds a line break; and there are as
/// many line-break segments as line breaks in the input.
pub proof fn lemma_segments_join_to_input<'a, H, F: Fn(&str) -> Option<H>>(
    s: Seq<char>,
    segs: Seq<TextSegment<'a, H>>,
    resolver: F,
)
    requires
        segs.len() == tokens(s).len(),
        forall|i: int| 0 <= i < segs.len() ==> resolved(#[trigger] segs[i], tokens(s)[i], resolver),
    ensures
        segments_text(segs, tokens(s)) == s,
        forall|i: int|
            0 <= i < segs.len() ==> (#[trigger] segs[i] matches TextSegment::Text(x) ==> x@.len() > 0
                && forall|j: int| 0 <= j < x@.len() ==> x@[j] != '\n'),
        newline_segments(segs) == newlines(s),
{
    lemma_segments_text(segs, tokens(s), resolver);
    lemma_tokens_join_to_input(s);
    lemma_line_count_follows_newlines(s, segs, resolver);
    lemma_tokens_from_shape(s, 0, 0);
    assert forall|i: int|
        0 <= i < segs.len() implies (#[trigger] segs[i] matches TextSegment::Text(x) ==> x@.len()
        > 0 && forall|j: int| 0 <= j < x@.len() ==> x@[j] != '\n') by {
        let t = tokens(s)[i];
        assert(resolved(segs[i], t, resolver));
        assert(token_shape(t));
        if let TextSegment::Text(x) = segs[i] {
            if let TokenView::Tag(name) = t {
                assert(x@ == seq![':'] + name + seq![':']);
                assert forall|j: int| 0 <= j < x@.len() implies x@[j] != '\n' by {
                    if 0 < j < x@.len() - 1 {
                        assert(x@[j] == name[j - 1]);
                        assert(is_tag_char(name[j - 1]));
                    }
                }
            }
        }
    }
}


proof fn lemma_closing_over_name(s: Seq<char>, k: int, j: int)
    requires
        0 <= k <= j < s.len(),
        s[j] == ':',
        forall|i: int| k <= i < j ==> is_tag_char(#[trigger] s[i]),
    ensures
        closing_from(s, k) == j,
    decreases j - k,
{
    if k < j {
        assert(is_tag_char(s[k]));
        lemma_closing_from_step(s, k);
        lemma_closing_over_name(s, k + 1, j);
    }
}

proof fn lemma_closing_from_step(s: Seq<char>, k: int)
    requires
        0 <= k < s.len(),
        is_tag_char(s[k]),
    ensures
        closing_from(s, k) == closing_from(s, k + 1),
{
}

proof fn lemma_tokens_plain(s: Seq<char>, start: int, k: int)
    requires
        0 <= start <= k <= s.len(),
        forall|i: int| k <= i < s.len() ==> #[trigger] s[i] != ':' && s[i] != '\n',
    ensures
        tokens_from(s, start, k) == flush(s, start, s.len() as int),
    decreases s.len() - k,
{
    if k < s.len() {
        assert(s[k] != ':');
        assert(tag_end(s, k) == -1);
        lemma_tokens_plain(s, start, k + 1);
    }
}

/// Tags are found: text without colons and line breaks is one text token
/// (none when empty); a name of tag characters between two colons is one
/// tag token with that name; and text without colons or line breaks
/// followed by a tag splits into that text and the tag.
pub proof fn lemma_tokens_find_tags(text: Seq<char>, name: Seq<char>)
    requires
        forall|i: int| 0 <= i < text.len() ==> #[trigger] text[i] != ':' && text[i] != '\n',
    ensures
        tokens(text) == if text.len() == 0 {
            Seq::<TokenView>::empty()
        } else {
            seq![TokenView::Text(text)]
        },
        name.len() > 0 && (forall|i: int| 0 <= i < name.len() ==> is_tag_char(#[trigger] name[i]))
            ==> tokens(text + seq![':'] + name + seq![':']) == flush(text, 0, text.len() as int)
            + seq![TokenView::Tag(name)],
{
    lemma_tokens_plain(text, 0, 0);
    assert(text.subrange(0, text.len() as int) =~= text);
    if name.len() > 0 && (forall|i: int| 0 <= i < name.len() ==> is_tag_char(#[trigger] name[i])) {
        let s = text + seq![':'] + name + seq![':'];
        let t = text.len() as int;
        let n = s.len() as int;
        assert(s[t] == ':');
        assert(s[n - 1] == ':');
        assert forall|i: int| t + 1 <= i < n - 1 implies is_tag_char(#[trigger] s[i]) by {
            assert(s[i] == name[i - t - 1]);
        }
        lemma_closing_over_name(s, t + 1, n - 1);
        assert(tag_end(s, t) == n - 1);
        assert forall|i: int| 0 <= i < t implies #[trigger] s[i] != ':' && s[i] != '\n' by {
            assert(s[i] == text[i]);
        }
        lemma_tokens_scan_text(s, 0, t);
        assert(s.subrange(t + 1, n - 1) =~= name);
        assert(s.subrange(0, t) =~= text);
        assert(tokens_from(s, n, n) == flush(s, n, n));
        assert(flush(s, n, n) =~= Seq::<TokenView>::empty());
        assert(flush(s, 0, t) == flush(text, 0, t));
        assert(tokens(s) =~= flush(text, 0, t) + seq![TokenView::Tag(name)]);
    }
}

proof fn lemma_tokens_scan_text(s: Seq<char>, k: int, t: int)
    requires
        0 <= k <= t < s.len(),
        forall|i: int| 0 <= i < t ==> #[trigger] s[i] != ':' && s[i] != '\n',
    ensures
        tokens_from(s, 0, k) == tokens_from(s, 0, t),
    decreases t - k,
{
    if k < t {
        assert(s[k] != ':');
        assert(tag_end(s, k) == -1);
        lemma_tokens_scan_text(s, k + 1, t);
    }
}

} // verus!
