use crate::error::AppError;
use vstd::prelude::*;

verus! {

/// Whether `c` has Unicode's White_Space property.
pub open spec fn spec_is_space(c: char) -> bool {
    let u = c as u32;
    ||| 0x9 <= u <= 0xd
    ||| u == 0x20
    ||| u == 0x85
    ||| u == 0xa0
    ||| u == 0x1680
    ||| 0x2000 <= u <= 0x200a
    ||| u == 0x2028
    ||| u == 0x2029
    ||| u == 0x202f
    ||| u == 0x205f
    ||| u == 0x3000
}

/// Whether `c` separates two paths in a list read from standard input.
pub fn is_space(c: char) -> (b: bool)
    ensures
        b == spec_is_space(c),
{
    let u = c as u32;
    (0x9 <= u && u <= 0xd) || u == 0x20 || u == 0x85 || u == 0xa0 || u == 0x1680 || (0x2000 <= u
        && u <= 0x200a) || u == 0x2028 || u == 0x2029 || u == 0x202f || u == 0x205f || u == 0x3000
}

/// Reading `s` from the left: the words already closed by a whitespace
/// character, and the word still open at the end (empty if none).
pub open spec fn scan(s: Seq<char>) -> (Seq<Seq<char>>, Seq<char>)
    decreases s.len(),
{
    if s.len() == 0 {
        (seq![], seq![])
    } else {
        let (done, open) = scan(s.drop_last());
        let c = s.last();
        if !spec_is_space(c) {
            (done, open.push(c))
        } else if open.len() > 0 {
            (done.push(open), seq![])
        } else {
            (done, open)
        }
    }
}

/// The maximal runs of non-whitespace characters of `s`, in order.
pub open spec fn words(s: Seq<char>) -> Seq<Seq<char>> {
    let (done, open) = scan(s);
    if open.len() > 0 {
        done.push(open)
    } else {
        done
    }
}

/// A path that can stand in a whitespace-separated list: non-empty, with no
/// whitespace in it.
pub open spec fn is_word(w: Seq<char>) -> bool {
    w.len() > 0 && forall|i: int| 0 <= i < w.len() ==> !spec_is_space(#[trigger] w[i])
}

/// The words `ws` written one after another, separated by single spaces.
pub open spec fn joined(ws: Seq<Seq<char>>) -> Seq<char>
    decreases ws.len(),
{
    if ws.len() == 0 {
        seq![]
    } else if ws.len() == 1 {
        ws[0]
    } else {
        joined(ws.drop_last()) + seq![' '] + ws.last()
    }
}

proof fn lemma_scan_extend(p: Seq<char>, w: Seq<char>)
    requires
        forall|i: int| 0 <= i < w.len() ==> !spec_is_space(#[trigger] w[i]),
    ensures
        scan(p + w) == (scan(p).0, scan(p).1 + w),
    decreases w.len(),
{
    if w.len() == 0 {
        assert(p + w == p);
        assert(scan(p).1 + w == scan(p).1);
    } else {
        let v = w.drop_last();
        assert forall|i: int| 0 <= i < v.len() implies !spec_is_space(#[trigger] v[i]) by {
            assert(v[i] == w[i]);
        }
        lemma_scan_extend(p, v);
        assert((p + w).drop_last() == p + v);
        assert((p + w).last() == w.last());
        assert(scan(p).1 + w == (scan(p).1 + v).push(w.last()));
    }
}

proof fn lemma_scan_joined(ws: Seq<Seq<char>>)
    requires
        ws.len() > 0,
        forall|i: int| 0 <= i < ws.len() ==> is_word(#[trigger] ws[i]),
    ensures
        scan(joined(ws)) == (ws.drop_last(), ws.last()),
    decreases ws.len(),
{
    let e = Seq::<char>::empty();
    if ws.len() == 1 {
        assert(is_word(ws[0]));
        lemma_scan_extend(e, ws[0]);
        assert(e + ws[0] == ws[0]);
        assert(scan(e).1 + ws[0] == ws[0]);
        assert(ws.drop_last() == Seq::<Seq<char>>::empty());
    } else {
        let init = ws.drop_last();
        assert forall|i: int| 0 <= i < init.len() implies is_word(#[trigger] init[i]) by {
            assert(init[i] == ws[i]);
        }
        lemma_scan_joined(init);
        assert(is_word(init.last()));
        assert(words(joined(init)) == init.drop_last().push(init.last()));
        assert(init.drop_last().push(init.last()) == init);
        let p = joined(init).push(' ');
        assert(p.drop_last() == joined(init));
        assert(scan(p) == (init, e));
        assert(is_word(ws.last()));
        lemma_scan_extend(p, ws.last());
        assert(joined(init) + seq![' '] == p);
        assert(e + ws.last() == ws.last());
    }
}

/// Splitting a list of paths written with single spaces between them gives
/// back the same paths, in the same order.
pub proof fn lemma_words_of_joined(ws: Seq<Seq<char>>)
    requires
        forall|i: int| 0 <= i < ws.len() ==> is_word(#[trigger] ws[i]),
    ensures
        words(joined(ws)) == ws,
{
    if ws.len() > 0 {
        lemma_scan_joined(ws);
        assert(is_word(ws.last()));
        assert(ws.drop_last().push(ws.last()) == ws);
    } else {
        assert(scan(joined(ws)) == (Seq::<Seq<char>>::empty(), Seq::<char>::empty()));
        assert(words(joined(ws)) == Seq::<Seq<char>>::empty());
    }
}

/// The views of a list of strings.
pub open spec fn views(v: Seq<String>) -> Seq<Seq<char>> {
    v.map_values(|w: String| w@)
}

/// Relies on String::push: appends one character at the end.
#[verifier::external_body]
fn push_char(s: &mut String, c: char)
    ensures
        final(s)@ == old(s)@.push(c),
{
    s.push(c)
}

/// Splits `text` on every run of whitespace and keeps the non-empty words,
/// in the order in which they appear.
pub fn split_words(text: &str) -> (r: Vec<String>)
    ensures
        views(r@) == words(text@),
{
    let mut done: Vec<String> = Vec::new();
    let mut open = String::new();
    let mut has_open = false;
    for c in it: text.chars()
        invariant
            it.seq() == text@,
            scan(text@.take(it.index() as int)) == (views(done@), open@),
            has_open == (open@.len() > 0),
    {
        let ghost prefix = text@.take(it.index() as int);
        assert(text@.take(it.index() + 1).drop_last() == prefix);
        if !is_space(c) {
            push_char(&mut open, c);
            has_open = true;
        } else if has_open {
            let word = open;
            done.push(word);
            open = String::new();
            has_open = false;
            assert(views(done@) == views(done@.drop_last()).push(word@));
        }
    }
    if has_open {
        let word = open;
        done.push(word);
        assert(views(done@) == views(done@.drop_last()).push(word@));
    }
    assert(text@.take(text@.len() as int) == text@);
    done
}

/// Where the input paths come from.
#[derive(Debug)]
pub enum InputSource {
    /// A whitespace-separated list read from standard input.
    Stdin,
    /// A single literal path.
    Path(String),
}

/// Whether the input designator asks for the list on standard input.
pub open spec fn is_stdin_designator(d: Seq<char>) -> bool {
    d == seq!['-']
}

/// The message given when standard input names no path.
pub open spec fn no_inputs_message() -> Seq<char> {
    "no input files given on standard input"@
}

/// The input paths that `source` names, given what standard input held.
pub open spec fn resolved(source: InputSource, stdin_text: Seq<char>) -> Seq<Seq<char>> {
    match source {
        InputSource::Stdin => words(stdin_text),
        InputSource::Path(p) => seq![p@],
    }
}

impl InputSource {
    /// Reads the input designator: `-` stands for standard input, anything
    /// else for itself, verbatim.
    pub fn from_designator(designator: &str) -> (r: InputSource)
        ensures
            is_stdin_designator(designator@) ==> r is Stdin,
            !is_stdin_designator(designator@) ==> (r matches InputSource::Path(p) && p@
                == designator@),
    {
        if designator.unicode_len() == 1 && designator.get_char(0) == '-' {
            assert(designator@ == seq!['-']);
            InputSource::Stdin
        } else {
            InputSource::Path(designator.to_owned())
        }
    }

    /// Whether resolving this source needs the text of standard input.
    pub fn reads_stdin(&self) -> (b: bool)
        ensures
            b == self is Stdin,
    {
        match self {
            InputSource::Stdin => true,
            InputSource::Path(_) => false,
        }
    }
}

/// The input resolver: the ordered, non-empty list of input paths. For a
/// literal path that path alone; for standard input the words of its text,
/// in order, duplicates kept. `stdin_text` is read only for `Stdin`.
pub fn resolve_inputs(source: &InputSource, stdin_text: &str) -> (r: Result<Vec<String>, AppError>)
    ensures
        r is Ok <==> resolved(*source, stdin_text@).len() > 0,
        r matches Ok(v) ==> views(v@) == resolved(*source, stdin_text@),
        r matches Err(e) ==> e.0@ == no_inputs_message(),
{
    match source {
        InputSource::Stdin => {
            let ws = split_words(stdin_text);
            if ws.len() == 0 {
                Err(AppError(String::from_str("no input files given on standard input")))
            } else {
                Ok(ws)
            }
        },
        InputSource::Path(p) => {
            let v = vec![p.clone()];
            assert(views(v@) == seq![p@]);
            Ok(v)
        },
    }
}

} // verus!
