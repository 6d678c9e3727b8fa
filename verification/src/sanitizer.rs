use vstd::prelude::*;

verus! {

broadcast use vstd::string::axiom_spec_iter;

/// A literal-for-literal substitution that the sanitizer performs before it
/// strips markup: an HTML-encoded value and the plain text it stands for.
pub enum StringReplacement<'a> {
    EncodedValue { to: &'a str, from: &'a str },
}

/// The whitespace that trimming removes from the ends of a fragment.
pub open spec fn is_ws(c: char) -> bool {
    c == ' ' || c == '\t' || c == '\n' || c == '\r'
}

/// The encoded ampersand entity.
pub open spec fn amp_entity() -> Seq<char> {
    seq!['&', 'a', 'm', 'p', ';']
}

/// The start of an HTML closing tag.
pub open spec fn closing_mark() -> Seq<char> {
    seq!['<', '/']
}

/// The start of an HTML opening tag.
pub open spec fn opening_mark() -> Seq<char> {
    seq!['<']
}

/// `from` occurs somewhere in `s`.
pub open spec fn contains_pat(s: Seq<char>, from: Seq<char>) -> bool {
    exists|i: int|
        0 <= i && i + from.len() <= s.len() && #[trigger] s.subrange(i, i + from.len()) == from
}

/// Every occurrence of `from` in `s` replaced by `to`, scanning left to
/// right without overlap, as `str::replace` does.
pub open spec fn spec_replace(s: Seq<char>, from: Seq<char>, to: Seq<char>) -> Seq<char>
    decreases s.len(),
{
    if from.len() == 0 || s.len() < from.len() {
        s
    } else if s.take(from.len() as int) == from {
        to + spec_replace(s.skip(from.len() as int), from, to)
    } else {
        seq![s[0]] + spec_replace(s.skip(1), from, to)
    }
}

/// Some later character of `s` is `'>'`.
pub open spec fn has_gt(s: Seq<char>) -> bool
    decreases s.len(),
{
    if s.len() == 0 {
        false
    } else {
        s[0] == '>' || has_gt(s.skip(1))
    }
}

/// `s` with every tag — the characters from an occurrence of `mark` through
/// the next `'>'` — replaced by a single space. A `mark` with no `'>'` after
/// it starts no tag and is kept.
pub open spec fn spec_strip_tags(s: Seq<char>, mark: Seq<char>) -> Seq<char>
    decreases s.len(), 1int,
{
    if mark.len() == 0 || s.len() < mark.len() {
        s
    } else if s.take(mark.len() as int) == mark && has_gt(s.skip(mark.len() as int)) {
        seq![' '] + strip_rest(s.skip(mark.len() as int), mark)
    } else {
        seq![s[0]] + spec_strip_tags(s.skip(1), mark)
    }
}

/// The tail of a strip pass that stands inside a tag: characters are
/// dropped up to and including the next `'>'`, where the pass resumes.
pub open spec fn strip_rest(s: Seq<char>, mark: Seq<char>) -> Seq<char>
    decreases s.len(), 0int,
{
    if s.len() == 0 {
        seq![]
    } else if s[0] == '>' {
        spec_strip_tags(s.skip(1), mark)
    } else {
        strip_rest(s.skip(1), mark)
    }
}

/// `s` without its leading whitespace.
pub open spec fn trim_start(s: Seq<char>) -> Seq<char>
    decreases s.len(),
{
    if s.len() > 0 && is_ws(s[0]) {
        trim_start(s.skip(1))
    } else {
        s
    }
}

/// `s` without its trailing whitespace.
pub open spec fn trim_end(s: Seq<char>) -> Seq<char>
    decreases s.len(),
{
    if s.len() > 0 && is_ws(s.last()) {
        trim_end(s.drop_last())
    } else {
        s
    }
}

/// `s` without leading and trailing whitespace.
pub open spec fn spec_trim(s: Seq<char>) -> Seq<char> {
    trim_end(trim_start(s))
}

/// What `sanitize` returns: the encoded ampersands decoded, then closing
/// tags, then opening tags each replaced by one space, then the ends
/// trimmed.
pub open spec fn spec_sanitize(s: Seq<char>) -> Seq<char> {
    spec_trim(
        spec_strip_tags(
            spec_strip_tags(spec_replace(s, amp_entity(), seq!['&']), closing_mark()),
            opening_mark(),
        ),
    )
}

/// The characters of a string, in order, as a vector.
pub fn chars_of(s: &str) -> (r: Vec<char>)
    ensures
        r@ == s@,
{
    let mut r: Vec<char> = Vec::new();
    for c in it: s.chars()
        invariant
            it.seq() == s@,
            r@ == it.seq().take(it.index() as int),
    {
        r.push(c);
    }
    proof {
        assert(r@ =~= s@);
    }
    r
}

/// Relies on std's `String::push`: appends the one character to the string.
#[verifier::external_body]
fn push_char(s: &mut String, c: char)
    ensures
        final(s)@ == old(s)@ + seq![c],
{
    s.push(c);
}

/// The string holding exactly the given characters.
pub fn string_of_chars(cs: &Vec<char>) -> (r: String)
    ensures
        r@ == cs@,
{
    let mut r = String::new();
    for i in 0..cs.len()
        invariant
            r@ =~= cs@.take(i as int),
    {
        push_char(&mut r, cs[i]);
        proof {
            assert(r@ =~= cs@.take(i + 1));
        }
    }
    proof {
        assert(r@ =~= cs@);
    }
    r
}

/// Whether `pat` occurs in `s` starting exactly at `i`.
pub(crate) fn matches_at(s: &Vec<char>, pat: &Vec<char>, i: usize) -> (r: bool)
    requires
        i <= s@.len(),
    ensures
        r == (i + pat@.len() <= s@.len() && s@.subrange(i as int, i + pat@.len()) == pat@),
{
    if pat.len() > s.len() - i {
        return false;
    }
    let mut j: usize = 0;
    while j < pat.len()
        invariant
            j <= pat@.len(),
            i + pat@.len() <= s@.len(),
            s@.len() <= usize::MAX,
            forall|k: int| 0 <= k < j ==> s@[i + k] == pat@[k],
        decreases pat@.len() - j,
    {
        if s[i + j] != pat[j] {
            proof {
                assert(s@.subrange(i as int, i + pat@.len())[j as int] != pat@[j as int]);
            }
            return false;
        }
        j = j + 1;
    }
    proof {
        assert(s@.subrange(i as int, i + pat@.len()) =~= pat@);
    }
    true
}

/// The position of the first `'>'` at or after `start`, if there is one.
fn find_gt(s: &Vec<char>, start: usize) -> (r: Option<usize>)
    requires
        start <= s@.len(),
    ensures
        match r {
            Some(k) => start <= k < s@.len() && s@[k as int] == '>' && (forall|j: int|
                start <= j < k ==> s@[j] != '>'),
            None => forall|j: int| start <= j < s@.len() ==> s@[j] != '>',
        },
{
    let mut k = start;
    while k < s.len()
        invariant
            start <= k <= s@.len(),
            forall|j: int| start <= j < k ==> s@[j] != '>',
        decreases s@.len() - k,
    {
        if s[k] == '>' {
            return Some(k);
        }
        k = k + 1;
    }
    None
}

/// `has_gt(s)` says exactly that some position of `s` holds `'>'`.
proof fn lemma_has_gt_iff(s: Seq<char>)
    ensures
        has_gt(s) <==> exists|k: int| 0 <= k < s.len() && s[k] == '>',
    decreases s.len(),
{
    if s.len() > 0 {
        lemma_has_gt_iff(s.skip(1));
        if s[0] == '>' {
        } else if has_gt(s.skip(1)) {
            let k = choose|k: int| 0 <= k < s.skip(1).len() && s.skip(1)[k] == '>';
            assert(s[k + 1] == '>');
        } else if exists|k: int| 0 <= k < s.len() && s[k] == '>' {
            let k = choose|k: int| 0 <= k < s.len() && s[k] == '>';
            assert(s.skip(1)[k - 1] == '>');
        }
    }
}

/// Dropping through the first `'>'` of `s` is what `strip_rest` does: the
/// pass resumes right after it.
proof fn lemma_strip_rest_at(s: Seq<char>, mark: Seq<char>, k: int)
    requires
        0 <= k < s.len(),
        s[k] == '>',
        forall|j: int| 0 <= j < k ==> s[j] != '>',
    ensures
        strip_rest(s, mark) == spec_strip_tags(s.skip(k + 1), mark),
    decreases k,
{
    if k == 0 {
    } else {
        assert(forall|j: int| 0 <= j < k - 1 ==> s.skip(1)[j] != '>');
        assert(s.skip(1)[k - 1] == '>');
        lemma_strip_rest_at(s.skip(1), mark, k - 1);
        assert(s.skip(1).skip(k) =~= s.skip(k + 1));
    }
}

/// Two skips compose into one.
proof fn lemma_skip_skip(s: Seq<char>, a: int, b: int)
    requires
        0 <= a,
        0 <= b,
        a + b <= s.len(),
    ensures
        s.skip(a).skip(b) == s.skip(a + b),
{
    assert(s.skip(a).skip(b) =~= s.skip(a + b));
}

/// Every occurrence of `from` replaced by `to`, on character vectors.
fn replace_chars(s: &Vec<char>, from: &Vec<char>, to: &Vec<char>) -> (r: Vec<char>)
    requires
        from@.len() > 0,
    ensures
        r@ == spec_replace(s@, from@, to@),
{
    let mut out: Vec<char> = Vec::new();
    let mut i: usize = 0;
    proof {
        assert(s@.skip(0) =~= s@);
        assert(Seq::<char>::empty() + spec_replace(s@, from@, to@) =~= spec_replace(
            s@,
            from@,
            to@,
        ));
    }
    while i < s.len()
        invariant
            i <= s@.len(),
            from@.len() > 0,
            spec_replace(s@, from@, to@) == out@ + spec_replace(s@.skip(i as int), from@, to@),
        decreases s@.len() - i,
    {
        let ghost pre = out@;
        if matches_at(s, from, i) {
            proof {
                assert(s@.skip(i as int).take(from@.len() as int) =~= s@.subrange(
                    i as int,
                    i + from@.len(),
                ));
                lemma_skip_skip(s@, i as int, from@.len() as int);
            }
            for j in 0..to.len()
                invariant
                    out@ == pre + to@.take(j as int),
            {
                out.push(to[j]);
                proof {
                    assert(pre + to@.take(j as int) + seq![to@[j as int]] =~= pre + to@.take(
                        j + 1,
                    ));
                }
            }
            proof {
                assert(pre + to@.take(to@.len() as int) =~= pre + to@);
            }
            i = i + from.len();
        } else {
            proof {
                if s@.skip(i as int).len() >= from@.len() {
                    assert(s@.skip(i as int).take(from@.len() as int) =~= s@.subrange(
                        i as int,
                        i + from@.len(),
                    ));
                }
                lemma_skip_skip(s@, i as int, 1);
                assert(seq![s@.skip(i as int)[0]] =~= seq![s@[i as int]]);
            }
            out.push(s[i]);
            proof {
                assert(pre + (seq![s@[i as int]] + spec_replace(s@.skip(i + 1), from@, to@))
                    =~= (pre + seq![s@[i as int]]) + spec_replace(s@.skip(i + 1), from@, to@));
            }
            i = i + 1;
        }
    }
    proof {
        assert(s@.skip(i as int) =~= Seq::<char>::empty());
        assert(out@ + Seq::<char>::empty() =~= out@);
    }
    out
}

/// One strip pass over a character vector: each stretch from `mark`
/// through the next `'>'` becomes a single space.
fn strip_tags_chars(s: &Vec<char>, mark: &Vec<char>) -> (r: Vec<char>)
    requires
        mark@.len() > 0,
    ensures
        r@ == spec_strip_tags(s@, mark@),
{
    let mut out: Vec<char> = Vec::new();
    let mut i: usize = 0;
    proof {
        assert(s@.skip(0) =~= s@);
        assert(Seq::<char>::empty() + spec_strip_tags(s@, mark@) =~= spec_strip_tags(s@, mark@));
    }
    while i < s.len()
        invariant
            i <= s@.len(),
            mark@.len() > 0,
            spec_strip_tags(s@, mark@) == out@ + spec_strip_tags(s@.skip(i as int), mark@),
        decreases s@.len() - i,
    {
        let ghost pre = out@;
        let mut tag_end: Option<usize> = None;
        if matches_at(s, mark, i) {
            tag_end = find_gt(s, i + mark.len());
        }
        match tag_end {
            Some(k) => {
                proof {
                    assert(s@.skip(i as int).take(mark@.len() as int) =~= s@.subrange(
                        i as int,
                        i + mark@.len(),
                    ));
                    lemma_skip_skip(s@, i as int, mark@.len() as int);
                    let t = s@.skip(i + mark@.len());
                    assert(t[k - (i + mark@.len())] == '>');
                    assert(forall|j: int|
                        0 <= j < k - (i + mark@.len()) ==> t[j] != '>') by {
                        assert(forall|j: int|
                            0 <= j < k - (i + mark@.len()) ==> t[j] == s@[i + mark@.len() + j]);
                    }
                    lemma_has_gt_iff(t);
                    lemma_strip_rest_at(t, mark@, k - (i + mark@.len()));
                    lemma_skip_skip(s@, i + mark@.len(), k + 1 - (i + mark@.len()));
                }
                out.push(' ');
                proof {
                    assert(pre + (seq![' '] + spec_strip_tags(s@.skip(k + 1), mark@)) =~= (pre
                        + seq![' ']) + spec_strip_tags(s@.skip(k + 1), mark@));
                }
                i = k + 1;
            },
            None => {
                proof {
                    let t = s@.skip(i as int);
                    if t.len() >= mark@.len() {
                        assert(t.take(mark@.len() as int) =~= s@.subrange(
                            i as int,
                            i + mark@.len(),
                        ));
                        if t.take(mark@.len() as int) == mark@ {
                            // the mark matched but no '>' follows, so no tag starts here
                            lemma_has_gt_iff(t.skip(mark@.len() as int));
                            lemma_skip_skip(s@, i as int, mark@.len() as int);
                            assert(forall|j: int|
                                0 <= j < s@.skip(i + mark@.len()).len() ==> #[trigger] s@.skip(
                                    i + mark@.len(),
                                )[j] == s@[i + mark@.len() + j]);
                            assert(!has_gt(t.skip(mark@.len() as int)));
                        }
                    }
                    lemma_skip_skip(s@, i as int, 1);
                    assert(seq![t[0]] =~= seq![s@[i as int]]);
                }
                out.push(s[i]);
                proof {
                    assert(pre + (seq![s@[i as int]] + spec_strip_tags(s@.skip(i + 1), mark@))
                        =~= (pre + seq![s@[i as int]]) + spec_strip_tags(
                        s@.skip(i + 1),
                        mark@,
                    ));
                }
                i = i + 1;
            },
        }
    }
    proof {
        assert(s@.skip(i as int) =~= Seq::<char>::empty());
        assert(out@ + Seq::<char>::empty() =~= out@);
    }
    out
}

/// Whether the character counts as trimmable whitespace.
fn ws(c: char) -> (r: bool)
    ensures
        r == is_ws(c),
{
    c == ' ' || c == '\t' || c == '\n' || c == '\r'
}

/// `trim_start` only ever removes a leading prefix: it equals skipping
/// whitespace characters one at a time.
proof fn lemma_trim_start_step(s: Seq<char>, a: int)
    requires
        0 <= a <= s.len(),
        forall|j: int| 0 <= j < a ==> is_ws(s[j]),
    ensures
        trim_start(s) == trim_start(s.skip(a)),
    decreases a,
{
    if a > 0 {
        assert(is_ws(s[0]));
        assert(forall|j: int| 0 <= j < a - 1 ==> is_ws(#[trigger] s.skip(1)[j]));
        lemma_trim_start_step(s.skip(1), a - 1);
        assert(s.skip(1).skip(a - 1) =~= s.skip(a));
    } else {
        assert(s.skip(0) =~= s);
    }
}

/// `trim_end` only ever removes a trailing suffix: it equals dropping
/// whitespace characters from the back one at a time.
proof fn lemma_trim_end_step(s: Seq<char>, b: int)
    requires
        0 <= b <= s.len(),
        forall|j: int| b <= j < s.len() ==> is_ws(s[j]),
    ensures
        trim_end(s) == trim_end(s.take(b)),
    decreases s.len() - b,
{
    if b < s.len() {
        assert(is_ws(s.last()));
        assert(forall|j: int| b <= j < s.drop_last().len() ==> is_ws(#[trigger] s.drop_last()[j]));
        lemma_trim_end_step(s.drop_last(), b);
        assert(s.drop_last().take(b) =~= s.take(b));
    } else {
        assert(s.take(b) =~= s);
    }
}

/// Both ends of a character vector trimmed of whitespace.
fn trim_chars(s: &Vec<char>) -> (r: Vec<char>)
    ensures
        r@ == spec_trim(s@),
{
    let mut a: usize = 0;
    while a < s.len() && ws(s[a])
        invariant
            a <= s@.len(),
            forall|j: int| 0 <= j < a ==> is_ws(s@[j]),
        decreases s@.len() - a,
    {
        a = a + 1;
    }
    proof {
        lemma_trim_start_step(s@, a as int);
        if a == s@.len() {
            assert(s@.skip(a as int) =~= Seq::<char>::empty());
        }
    }
    // now trim_start(s@) == s@.skip(a), whose first character is not whitespace
    let mut b: usize = s.len();
    while b > a && ws(s[b - 1])
        invariant
            a <= b <= s@.len(),
            forall|j: int| b <= j < s@.len() ==> is_ws(s@[j]),
        decreases b,
    {
        b = b - 1;
    }
    proof {
        let t = s@.skip(a as int);
        assert(forall|j: int| b - a <= j < t.len() ==> is_ws(t[j])) by {
            assert(forall|j: int| b - a <= j < t.len() ==> t[j] == s@[a + j]);
        }
        lemma_trim_end_step(t, b - a);
        if b > a {
            assert(!is_ws(t.take(b - a).last()));
        }
        if a < s@.len() && b > a {
            assert(!is_ws(t.take(b - a)[0]));
        }
    }
    let mut out: Vec<char> = Vec::new();
    let mut k = a;
    while k < b
        invariant
            a <= k <= b <= s@.len(),
            out@ =~= s@.subrange(a as int, k as int),
        decreases b - k,
    {
        out.push(s[k]);
        k = k + 1;
    }
    proof {
        assert(out@ =~= s@.skip(a as int).take(b - a));
        assert(trim_end(s@.skip(a as int).take(b - a)) == s@.skip(a as int).take(b - a));
    }
    out
}

/// Normalizes one extracted fragment into clean prose: decodes encoded
/// ampersands, replaces each closing and then each opening tag with a
/// space, and trims the ends. Deterministic and total.
pub fn sanitize(s: &str) -> (r: String)
    ensures
        r@ == spec_sanitize(s@),
{
    let cs = chars_of(s);
    sanitize_chars(&cs)
}

/// The sanitizer's pipeline, on a fragment already taken apart into
/// characters.
pub(crate) fn sanitize_chars(input: &Vec<char>) -> (r: String)
    ensures
        r@ == spec_sanitize(input@),
{
    // remove encoded values
    let encoded = StringReplacement::EncodedValue { to: "&", from: "&amp;" };
    let mut cs: Vec<char>;
    match encoded {
        StringReplacement::EncodedValue { to, from } => {
            let from_cs = chars_of(from);
            let to_cs = chars_of(to);
            proof {
                reveal_strlit("&amp;");
                reveal_strlit("&");
                assert(from_cs@ =~= amp_entity());
                assert(to_cs@ =~= seq!['&']);
            }
            cs = replace_chars(input, &from_cs, &to_cs);
        },
    }

    // remove closing tags, then opening tags
    let mut closing: Vec<char> = Vec::new();
    closing.push('<');
    closing.push('/');
    let mut opening: Vec<char> = Vec::new();
    opening.push('<');
    proof {
        assert(closing@ =~= closing_mark());
        assert(opening@ =~= opening_mark());
    }
    cs = strip_tags_chars(&cs, &closing);
    cs = strip_tags_chars(&cs, &opening);

    // trim start and end
    let cs = trim_chars(&cs);

    string_of_chars(&cs)
}

/// No `'<'` of `s` is followed, anywhere later, by a `'>'`: nothing in `s`
/// can still be taken for a tag.
pub open spec fn no_open_tag(s: Seq<char>) -> bool {
    forall|i: int, j: int| 0 <= i < j < s.len() && #[trigger] s[i] == '<' ==> #[trigger] s[j]
        != '>'
}

/// `s` has no whitespace at either end.
pub open spec fn trimmed(s: Seq<char>) -> bool {
    s.len() > 0 ==> !is_ws(s[0]) && !is_ws(s.last())
}

/// Dropping a character at either end preserves `no_open_tag`.
proof fn lemma_no_open_tag_shrink(s: Seq<char>)
    requires
        no_open_tag(s),
        s.len() > 0,
    ensures
        no_open_tag(s.skip(1)),
        no_open_tag(s.drop_last()),
{
    assert forall|i: int, j: int|
        0 <= i < j < s.skip(1).len() && #[trigger] s.skip(1)[i] == '<' implies #[trigger] s.skip(
        1,
    )[j] != '>' by {
        assert(s.skip(1)[i] == s[i + 1]);
        assert(s.skip(1)[j] == s[j + 1]);
    }
    assert forall|i: int, j: int|
        0 <= i < j < s.drop_last().len() && #[trigger] s.drop_last()[i] == '<'
        implies #[trigger] s.drop_last()[j] != '>' by {
        assert(s.drop_last()[i] == s[i]);
        assert(s.drop_last()[j] == s[j]);
    }
}

/// Putting a character in front preserves `no_open_tag`, as long as a
/// prepended `'<'` has no `'>'` anywhere after it.
proof fn lemma_no_open_tag_prepend(c: char, t: Seq<char>)
    requires
        no_open_tag(t),
        c == '<' ==> forall|k: int| 0 <= k < t.len() ==> t[k] != '>',
    ensures
        no_open_tag(seq![c] + t),
{
    let s = seq![c] + t;
    assert forall|i: int, j: int|
        0 <= i < j < s.len() && #[trigger] s[i] == '<' implies #[trigger] s[j] != '>' by {
        assert(s[j] == t[j - 1]);
        if i > 0 {
            assert(s[i] == t[i - 1]);
        }
    }
}

/// A pass that finds no `'>'` in its input changes nothing.
proof fn lemma_strip_gt_free(s: Seq<char>, mark: Seq<char>)
    requires
        mark.len() > 0,
        !has_gt(s),
    ensures
        spec_strip_tags(s, mark) == s,
    decreases s.len(),
{
    lemma_has_gt_iff(s);
    if s.len() < mark.len() {
    } else if s.take(mark.len() as int) == mark && has_gt(s.skip(mark.len() as int)) {
        lemma_has_gt_iff(s.skip(mark.len() as int));
        let k = choose|k: int|
            0 <= k < s.skip(mark.len() as int).len() && s.skip(mark.len() as int)[k] == '>';
        assert(s[mark.len() + k] == '>');
    } else {
        lemma_has_gt_iff(s.skip(1));
        assert forall|k: int| 0 <= k < s.skip(1).len() implies #[trigger] s.skip(1)[k]
            != '>' by {
            assert(s.skip(1)[k] == s[k + 1]);
        }
        lemma_strip_gt_free(s.skip(1), mark);
        assert(seq![s[0]] + s.skip(1) =~= s);
    }
}

/// After the opening-tag pass, no `'<'` of the output has a `'>'` after
/// it: every tag start with a matching end was consumed.
proof fn lemma_strip_open_no_tag(s: Seq<char>)
    ensures
        no_open_tag(spec_strip_tags(s, opening_mark())),
    decreases s.len(), 1int,
{
    let mark = opening_mark();
    if s.len() < 1 {
    } else if s.take(1) == mark && has_gt(s.skip(1)) {
        lemma_strip_rest_open_no_tag(s.skip(1));
        lemma_no_open_tag_prepend(' ', strip_rest(s.skip(1), mark));
    } else {
        lemma_strip_open_no_tag(s.skip(1));
        if s[0] == '<' {
            assert(s.take(1) =~= mark);
            lemma_has_gt_iff(s.skip(1));
            lemma_strip_gt_free(s.skip(1), mark);
        }
        lemma_no_open_tag_prepend(s[0], spec_strip_tags(s.skip(1), mark));
    }
}

/// The in-tag tail of the opening-tag pass also leaves no open tag.
proof fn lemma_strip_rest_open_no_tag(s: Seq<char>)
    ensures
        no_open_tag(strip_rest(s, opening_mark())),
    decreases s.len(), 0int,
{
    if s.len() == 0 {
    } else if s[0] == '>' {
        lemma_strip_open_no_tag(s.skip(1));
    } else {
        lemma_strip_rest_open_no_tag(s.skip(1));
    }
}

/// On input with no open tag, a strip pass whose mark starts with `'<'`
/// changes nothing.
proof fn lemma_strip_identity(s: Seq<char>, mark: Seq<char>)
    requires
        mark.len() > 0,
        mark[0] == '<',
        no_open_tag(s),
    ensures
        spec_strip_tags(s, mark) == s,
    decreases s.len(),
{
    if s.len() < mark.len() {
    } else if s.take(mark.len() as int) == mark && has_gt(s.skip(mark.len() as int)) {
        assert(s[0] == mark[0]) by {
            assert(s.take(mark.len() as int)[0] == s[0]);
        }
        lemma_has_gt_iff(s.skip(mark.len() as int));
        let k = choose|k: int|
            0 <= k < s.skip(mark.len() as int).len() && s.skip(mark.len() as int)[k] == '>';
        assert(s[mark.len() + k] == '>');
        assert(false);
    } else {
        lemma_no_open_tag_shrink(s);
        lemma_strip_identity(s.skip(1), mark);
        assert(seq![s[0]] + s.skip(1) =~= s);
    }
}

/// Trimming preserves `no_open_tag`.
proof fn lemma_trim_start_no_open(s: Seq<char>)
    requires
        no_open_tag(s),
    ensures
        no_open_tag(trim_start(s)),
    decreases s.len(),
{
    if s.len() > 0 && is_ws(s[0]) {
        lemma_no_open_tag_shrink(s);
        lemma_trim_start_no_open(s.skip(1));
    }
}

/// Trimming preserves `no_open_tag`.
proof fn lemma_trim_end_no_open(s: Seq<char>)
    requires
        no_open_tag(s),
    ensures
        no_open_tag(trim_end(s)),
    decreases s.len(),
{
    if s.len() > 0 && is_ws(s.last()) {
        lemma_no_open_tag_shrink(s);
        lemma_trim_end_no_open(s.drop_last());
    }
}

/// The head of a start-trimmed sequence is not whitespace.
proof fn lemma_trim_start_head(s: Seq<char>)
    ensures
        trim_start(s).len() > 0 ==> !is_ws(trim_start(s)[0]),
    decreases s.len(),
{
    if s.len() > 0 && is_ws(s[0]) {
        lemma_trim_start_head(s.skip(1));
    }
}

/// The last character of an end-trimmed sequence is not whitespace.
proof fn lemma_trim_end_last(s: Seq<char>)
    ensures
        trim_end(s).len() > 0 ==> !is_ws(trim_end(s).last()),
    decreases s.len(),
{
    if s.len() > 0 && is_ws(s.last()) {
        lemma_trim_end_last(s.drop_last());
    }
}

/// End-trimming does not touch the head while anything remains.
proof fn lemma_trim_end_head(s: Seq<char>)
    ensures
        trim_end(s).len() > 0 ==> trim_end(s)[0] == s[0],
    decreases s.len(),
{
    if s.len() > 0 && is_ws(s.last()) {
        lemma_trim_end_head(s.drop_last());
    }
}

/// A full trim leaves no whitespace at either end.
proof fn lemma_trim_trimmed(s: Seq<char>)
    ensures
        trimmed(spec_trim(s)),
{
    lemma_trim_start_head(s);
    lemma_trim_end_last(trim_start(s));
    lemma_trim_end_head(trim_start(s));
}

/// Trimming an already-trimmed sequence changes nothing.
proof fn lemma_trim_identity(s: Seq<char>)
    requires
        trimmed(s),
    ensures
        spec_trim(s) == s,
{
}

/// An occurrence of `from` at any one position establishes `contains_pat`.
pub(crate) proof fn lemma_contains_at(s: Seq<char>, from: Seq<char>, i: int)
    requires
        0 <= i,
        i + from.len() <= s.len(),
        s.subrange(i, i + from.len()) == from,
    ensures
        contains_pat(s, from),
{
}

/// Replacement changes nothing when the pattern does not occur.
proof fn lemma_replace_identity(s: Seq<char>, from: Seq<char>, to: Seq<char>)
    requires
        from.len() > 0,
        !contains_pat(s, from),
    ensures
        spec_replace(s, from, to) == s,
    decreases s.len(),
{
    if s.len() < from.len() {
    } else if s.take(from.len() as int) == from {
        assert(s.subrange(0, 0 + from.len() as int) =~= s.take(from.len() as int));
        lemma_contains_at(s, from, 0);
        assert(false);
    } else {
        assert(!contains_pat(s.skip(1), from)) by {
            if contains_pat(s.skip(1), from) {
                let i = choose|i: int|
                    0 <= i && i + from.len() <= s.skip(1).len() && #[trigger] s.skip(1).subrange(
                        i,
                        i + from.len(),
                    ) == from;
                assert(s.subrange(i + 1, i + 1 + from.len()) =~= s.skip(1).subrange(
                    i,
                    i + from.len(),
                ));
                lemma_contains_at(s, from, i + 1);
            }
        }
        lemma_replace_identity(s.skip(1), from, to);
        assert(seq![s[0]] + s.skip(1) =~= s);
    }
}

/// Sanitizing is idempotent: running `sanitize` over an already-sanitized
/// fragment returns it unchanged — provided the first pass left no encoded
/// ampersand behind. Decoding can itself uncover a fresh entity (as in
/// "&amp;amp;", whose decoding is "&amp;"), and such inputs are the one
/// family excluded here.
pub proof fn lemma_sanitize_idempotent(s: Seq<char>)
    requires
        !contains_pat(spec_sanitize(s), amp_entity()),
    ensures
        spec_sanitize(spec_sanitize(s)) == spec_sanitize(s),
{
    let u = spec_replace(s, amp_entity(), seq!['&']);
    let v = spec_strip_tags(u, closing_mark());
    let w = spec_strip_tags(v, opening_mark());
    let t = spec_trim(w);
    assert(t == spec_sanitize(s));
    lemma_strip_open_no_tag(v);
    lemma_trim_start_no_open(w);
    lemma_trim_end_no_open(trim_start(w));
    lemma_replace_identity(t, amp_entity(), seq!['&']);
    lemma_strip_identity(t, closing_mark());
    lemma_strip_identity(t, opening_mark());
    lemma_trim_trimmed(w);
    lemma_trim_identity(t);
}

} // verus!
