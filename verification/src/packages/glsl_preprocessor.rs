use vstd::prelude::*;
use crate::text::{
    chars_of, copy_range, push_char, find_char, find_from, lemma_find_char_range, is_ws, next_class, push_chars, range_equals, scan_class,
    string_of,
};

verus! {

/// The lines of `s` as `str::lines` gives them: split at `'\n'`, with a
/// `'\r'` before the `'\n'` removed; the final line ending is optional.
pub open spec fn lines(s: Seq<char>) -> Seq<Seq<char>>
    decreases s.len(),
{
    if s.len() == 0 {
        Seq::empty()
    } else {
        match find_char(s, '\n') {
            None => seq![s],
            Some(i) => {
                proof {
                    lemma_find_char_range(s, '\n');
                }
                seq![strip_cr(s.take(i))] + lines(s.skip(i + 1))
            },
        }
    }
}

/// `line` without one trailing `'\r'`.
pub open spec fn strip_cr(line: Seq<char>) -> Seq<char> {
    if line.len() > 0 && line.last() == '\r' {
        line.drop_last()
    } else {
        line
    }
}

/// The text after the first `'#'` of `line`, when it has one.
pub open spec fn after_hash(line: Seq<char>) -> Option<Seq<char>> {
    match find_char(line, '#') {
        None => None,
        Some(h) => Some(line.skip(h + 1)),
    }
}

/// The first whitespace-separated word of `s` (empty when there is none).
pub open spec fn first_word(s: Seq<char>) -> Seq<char> {
    let a = next_class(s, 0, false);
    let b = next_class(s, a, true);
    s.subrange(a, b)
}

/// The second whitespace-separated word of `s` (empty when there is none).
pub open spec fn second_word(s: Seq<char>) -> Seq<char> {
    let a0 = next_class(s, 0, false);
    let b0 = next_class(s, a0, true);
    let a1 = next_class(s, b0, false);
    let b1 = next_class(s, a1, true);
    s.subrange(a1, b1)
}

/// Every line with a `'#'` names a directive after it.
pub open spec fn directives_named_in(lines: Seq<Seq<char>>) -> bool {
    forall|i: int| 0 <= i < lines.len() ==> #[trigger] directive_named(lines[i])
}

/// The label and code of the first entry of `table` for `directive`.
pub open spec fn lookup(table: Seq<(Seq<char>, Seq<char>, Seq<char>)>, directive: Seq<char>) -> Option<(Seq<char>, Seq<char>)>
    decreases table.len(),
{
    if table.len() == 0 {
        None
    } else if table[0].0 == directive {
        Some((table[0].1, table[0].2))
    } else {
        lookup(table.skip(1), directive)
    }
}

/// What one line becomes, and the includes done after it: a `#test`
/// directive becomes a comment; an `#include` of a target not included yet
/// becomes the target's code between comments (an error naming the target
/// when `table` has no entry for it), and of a target included before a
/// comment; every other line is kept.
pub open spec fn step(line: Seq<char>, past: Seq<Seq<char>>, table: Seq<(Seq<char>, Seq<char>, Seq<char>)>) -> Result<(Seq<char>, Seq<Seq<char>>), Seq<char>> {
    match after_hash(line) {
        None => Ok((line + "\n"@, past)),
        Some(rest) => {
            let directive = first_word(rest);
            let following = second_word(rest);
            if directive == "test"@ {
                Ok(("// Found #test\n"@, past))
            } else if directive == "include"@ {
                if past.contains(following) {
                    Ok(("// ignored repeat include "@ + following + "\n"@, past))
                } else {
                    match lookup(table, following) {
                        None => Err(following),
                        Some((label, code)) => Ok(
                            (
                                "// included "@ + label + "\n"@ + code + "\n// end include\n"@,
                                past.push(following),
                            ),
                        ),
                    }
                }
            } else {
                Ok((line + "\n"@, past))
            }
        },
    }
}

/// The processed text of `lines`, starting with the includes `past` done.
pub open spec fn process(lines: Seq<Seq<char>>, past: Seq<Seq<char>>, table: Seq<(Seq<char>, Seq<char>, Seq<char>)>) -> Result<Seq<char>, Seq<char>>
    decreases lines.len(),
{
    if lines.len() == 0 {
        Ok(Seq::empty())
    } else {
        match step(lines[0], past, table) {
            Err(e) => Err(e),
            Ok((text, past2)) => match process(lines.skip(1), past2, table) {
                Err(e) => Err(e),
                Ok(rest) => Ok(text + rest),
            },
        }
    }
}

/// The include targets of `lines`, each once, in the order of their first
/// `#include`, after the targets `past`.
pub open spec fn requested(lines: Seq<Seq<char>>, past: Seq<Seq<char>>) -> Seq<Seq<char>>
    decreases lines.len(),
{
    if lines.len() == 0 {
        past
    } else {
        let next = match after_hash(lines[0]) {
            Some(rest) => if first_word(rest) == "include"@ && !past.contains(second_word(rest)) {
                past.push(second_word(rest))
            } else {
                past
            },
            None => past,
        };
        requested(lines.skip(1), next)
    }
}

/// Prepending twice is prepending the concatenation.
pub proof fn lemma_prepend_assoc(a: Seq<char>, b: Seq<char>, r: Result<Seq<char>, Seq<char>>)
    ensures
        prepend(a, prepend(b, r)) == prepend(a + b, r),
{
    if let Ok(x) = r {
        assert(a + (b + x) =~= (a + b) + x);
    }
}

/// `s` without its `'"'` characters.
pub open spec fn without_quotes(s: Seq<char>) -> Seq<char>
    decreases s.len(),
{
    if s.len() == 0 {
        s
    } else if s.last() == '"' {
        without_quotes(s.drop_last())
    } else {
        without_quotes(s.drop_last()).push(s.last())
    }
}

/// Whether a line with a `'#'` names a directive after it.
pub open spec fn directive_named(line: Seq<char>) -> bool {
    match after_hash(line) {
        None => true,
        Some(rest) => first_word(rest).len() > 0,
    }
}

/// `text` in front of the text of `res`.
pub open spec fn prepend(text: Seq<char>, res: Result<Seq<char>, Seq<char>>) -> Result<Seq<char>, Seq<char>> {
    match res {
        Ok(r) => Ok(text + r),
        Err(e) => Err(e),
    }
}

/// The text of one included file, as the caller read it: the target as the
/// `#include` line names it, the label that announces it, and its code.
pub struct IncludeSource {
    pub directive: String,
    pub label: String,
    pub code: String,
}

pub open spec fn table_of(includes: Seq<IncludeSource>) -> Seq<(Seq<char>, Seq<char>, Seq<char>)> {
    includes.map_values(|e: IncludeSource| (e.directive@, e.label@, e.code@))
}

pub open spec fn seqs_of(v: Seq<Vec<char>>) -> Seq<Seq<char>> {
    v.map_values(|x: Vec<char>| x@)
}

/// Why a shader could not be preprocessed.
#[derive(Debug)]
pub enum PreprocessError {
    /// An `#include` target for which no source was given.
    MissingInclude(String),
}

/// The positions of the first line of `chars[pos..]`: where its text ends
/// and where the next line starts.
fn next_line(chars: &Vec<char>, pos: usize) -> (res: (usize, usize))
    requires
        pos < chars@.len(),
    ensures
        pos <= res.0 <= res.1 <= chars@.len(),
        pos < res.1,
        lines(chars@.skip(pos as int)) == seq![chars@.subrange(pos as int, res.0 as int)] + lines(
            chars@.skip(res.1 as int),
        ),
{
    let nl = find_from(chars, pos, '\n');
    let ghost s = chars@.skip(pos as int);
    if nl < chars.len() {
        let end = if nl > pos && chars[nl - 1] == '\r' {
            nl - 1
        } else {
            nl
        };
        proof {
            let i = (nl - pos) as int;
            assert(find_char(s, '\n') == Some(i));
            assert(s.len() > 0);
            assert(lines(s) == seq![strip_cr(s.take(i))] + lines(s.skip(i + 1)));
            assert(s.skip(i + 1) =~= chars@.skip(nl + 1));
            let line = s.take(i);
            assert(line =~= chars@.subrange(pos as int, nl as int));
            if nl > pos && chars@[nl - 1] == '\r' {
                assert(line.last() == '\r');
                assert(strip_cr(line) =~= chars@.subrange(pos as int, end as int));
            } else {
                assert(strip_cr(line) =~= chars@.subrange(pos as int, end as int));
            }
        }
        (end, nl + 1)
    } else {
        proof {
            lemma_find_char_range(s, '\n');
            assert(s.len() > 0);
            assert(lines(s) == seq![s]);
            assert(s =~= chars@.subrange(pos as int, chars@.len() as int));
            assert(chars@.skip(chars@.len() as int) =~= Seq::<char>::empty());
            assert(lines(Seq::<char>::empty()) =~= Seq::<Seq<char>>::empty());
            assert(seq![s] + Seq::<Seq<char>>::empty() =~= seq![s]);
        }
        (chars.len(), chars.len())
    }
}

/// The directive and target words of a line: `None` when it has no `'#'`.
fn parse_line(line: &Vec<char>) -> (res: Option<(Vec<char>, Vec<char>)>)
    ensures
        match after_hash(line@) {
            None => res is None,
            Some(rest) => res matches Some((d, f)) && d@ == first_word(rest) && f@ == second_word(rest),
        },
{
    let h = find_from(line, 0, '#');
    proof {
        assert(line@.skip(0) =~= line@);
        lemma_find_char_range(line@, '#');
    }
    if h == line.len() {
        return None;
    }
    let rest = copy_range(line, h + 1, line.len());
    proof {
        assert(rest@ =~= line@.skip(h + 1));
    }
    let a0 = scan_class(&rest, 0, false);
    let b0 = scan_class(&rest, a0, true);
    let a1 = scan_class(&rest, b0, false);
    let b1 = scan_class(&rest, a1, true);
    Some((copy_range(&rest, a0, b0), copy_range(&rest, a1, b1)))
}

/// Whether `x` is one of `past`.
fn contains_chars(past: &Vec<Vec<char>>, x: &Vec<char>) -> (res: bool)
    ensures
        res == seqs_of(past@).contains(x@),
{
    let mut k: usize = 0;
    while k < past.len()
        invariant
            0 <= k <= past@.len(),
            forall|j: int| 0 <= j < k ==> past@[j]@ != x@,
        decreases past@.len() - k,
    {
        if range_equals(&past[k], 0, past[k].len(), x) {
            proof {
                assert(past@[k as int]@.subrange(0, past@[k as int]@.len() as int) =~= past@[k as int]@);
                assert(seqs_of(past@)[k as int] == x@);
            }
            return true;
        }
        proof {
            assert(past@[k as int]@.subrange(0, past@[k as int]@.len() as int) =~= past@[k as int]@);
        }
        k = k + 1;
    }
    proof {
        if seqs_of(past@).contains(x@) {
            let j = choose|j: int| 0 <= j < seqs_of(past@).len() && seqs_of(past@)[j] == x@;
            assert(past@[j]@ == x@);
        }
    }
    false
}

/// The index of the first entry of `includes` for target `following`.
fn lookup_index(includes: &Vec<IncludeSource>, keys: &Vec<Vec<char>>, following: &Vec<char>) -> (res: Option<usize>)
    requires
        keys@.len() == includes@.len(),
        forall|j: int| 0 <= j < keys@.len() ==> #[trigger] keys@[j]@ == includes@[j].directive@,
    ensures
        match lookup(table_of(includes@), following@) {
            None => res is None,
            Some((label, code)) => res matches Some(k) && k < includes@.len() && includes@[k as int].label@ == label && includes@[k as int].code@ == code,
        },
{
    let ghost t = table_of(includes@);
    assert(t.skip(0) =~= t);
    let mut k: usize = 0;
    while k < keys.len()
        invariant
            0 <= k <= keys@.len(),
            keys@.len() == includes@.len(),
            t == table_of(includes@),
            forall|j: int| 0 <= j < keys@.len() ==> #[trigger] keys@[j]@ == includes@[j].directive@,
            lookup(t, following@) == lookup(t.skip(k as int), following@),
        decreases keys@.len() - k,
    {
        proof {
            assert(t.skip(k as int)[0] == t[k as int]);
            assert(t.skip(k as int).skip(1) =~= t.skip(k + 1));
            assert(keys@[k as int]@.subrange(0, keys@[k as int]@.len() as int) =~= keys@[k as int]@);
        }
        if range_equals(&keys[k], 0, keys[k].len(), following) {
            return Some(k);
        }
        k = k + 1;
    }
    proof {
        assert(t.skip(k as int).len() == 0);
    }
    None
}

/// The characters of each source's target.
fn keys_of(includes: &Vec<IncludeSource>) -> (res: Vec<Vec<char>>)
    ensures
        res@.len() == includes@.len(),
        forall|j: int| 0 <= j < res@.len() ==> #[trigger] res@[j]@ == includes@[j].directive@,
{
    let mut keys: Vec<Vec<char>> = Vec::new();
    let mut k: usize = 0;
    while k < includes.len()
        invariant
            0 <= k <= includes@.len(),
            keys@.len() == k,
            forall|j: int| 0 <= j < k ==> #[trigger] keys@[j]@ == includes@[j].directive@,
        decreases includes@.len() - k,
    {
        keys.push(chars_of(includes[k].directive.as_str()));
        k = k + 1;
    }
    keys
}

/// Processes one line (see `step`): appends its text to `out` and records a
/// new include in `past`, or returns the target that has no source.
fn step_line(
    line: &Vec<char>,
    past: &mut Vec<Vec<char>>,
    out: &mut String,
    includes: &Vec<IncludeSource>,
    keys: &Vec<Vec<char>>,
    test: &Vec<char>,
    include_word: &Vec<char>,
) -> (res: Option<String>)
    requires
        test@ == "test"@,
        include_word@ == "include"@,
        keys@.len() == includes@.len(),
        forall|j: int| 0 <= j < keys@.len() ==> #[trigger] keys@[j]@ == includes@[j].directive@,
    ensures
        match step(line@, seqs_of(old(past)@), table_of(includes@)) {
            Ok((text, p2)) => res is None && final(out)@ == old(out)@ + text && seqs_of(final(past)@) == p2,
            Err(e) => res matches Some(target) && target@ == e,
        },
{
    let ghost ps = seqs_of(past@);
        match parse_line(line) {
            None => {
                push_chars(out, line, 0, line.len());
                out.append("\n");
                proof {
                    assert(line@.subrange(0, line@.len() as int) =~= line@);
                }
            },
            Some((d, f)) => {
                let dl = d.len();
                let fl = f.len();
                if range_equals(&d, 0, dl, test) {
                    out.append("// Found #test\n");
                    proof {
                        assert(d@.subrange(0, dl as int) =~= d@);
                    }
                } else if range_equals(&d, 0, dl, include_word) {
                    proof {
                        assert(d@.subrange(0, dl as int) =~= d@);
                    }
                    if contains_chars(past, &f) {
                        out.append("// ignored repeat include ");
                        push_chars(out, &f, 0, fl);
                        out.append("\n");
                        proof {
                            assert(f@.subrange(0, fl as int) =~= f@);
                        }
                    } else {
                        match lookup_index(includes, keys, &f) {
                            None => {
                                let target = string_of(&f, 0, fl);
                                proof {
                                    assert(f@.subrange(0, fl as int) =~= f@);
                                }
                                return Some(target);
                            },
                            Some(k) => {
                                out.append("// included ");
                                out.append(includes[k].label.as_str());
                                out.append("\n");
                                out.append(includes[k].code.as_str());
                                out.append("\n// end include\n");
                                past.push(f);
                                proof {
                                    assert(seqs_of(past@) =~= ps.push(f@));
                                }
                            },
                        }
                    }
                } else {
                    proof {
                        assert(d@.subrange(0, dl as int) =~= d@);
                        assert(line@.subrange(0, line@.len() as int) =~= line@);
                    }
                    push_chars(out, line, 0, line.len());
                    out.append("\n");
                }
            },
        }
    None
}

/// The shader preprocessor.
pub struct GlslPreprocessor;

impl GlslPreprocessor {
    /// Whether every line of `shader_code` with a `'#'` names a directive
    /// after it (a line such as `"#"` alone has none).
    pub fn directives_named(shader_code: &str) -> (res: bool)
        ensures
            res == directives_named_in(lines(shader_code@)),
    {
        let chars = chars_of(shader_code);
        let mut pos: usize = 0;
        proof {
            assert(chars@.skip(0) =~= chars@);
        }
        while pos < chars.len()
            invariant
                pos <= chars@.len(),
                chars@ == shader_code@,
                directives_named_in(lines(shader_code@)) == directives_named_in(lines(chars@.skip(pos as int))),
            decreases chars@.len() - pos,
        {
            let (end, next) = next_line(&chars, pos);
            let line = copy_range(&chars, pos, end);
            let ghost ls = lines(chars@.skip(pos as int));
            let ghost rest = lines(chars@.skip(next as int));
            proof {
                assert(ls[0] == line@);
                assert(ls.skip(1) =~= rest);
                assert(directives_named_in(ls) == (directive_named(line@) && directives_named_in(rest))) by {
                    if directives_named_in(ls) {
                        assert(directive_named(ls[0]));
                        assert forall|i: int| 0 <= i < rest.len() implies #[trigger] directive_named(rest[i]) by {
                            assert(rest[i] == ls[i + 1]);
                        }
                    }
                    if directive_named(line@) && directives_named_in(rest) {
                        assert forall|i: int| 0 <= i < ls.len() implies #[trigger] directive_named(ls[i]) by {
                            if i > 0 {
                                assert(ls[i] == rest[i - 1]);
                            }
                        }
                    }
                }
            }
            match parse_line(&line) {
                None => {},
                Some((d, _f)) => {
                    if d.len() == 0 {
                        return false;
                    }
                },
            }
            pos = next;
        }
        proof {
            assert(chars@.skip(pos as int) =~= Seq::<char>::empty());
            assert(lines(Seq::<char>::empty()) =~= Seq::<Seq<char>>::empty());
        }
        true
    }

    /// The targets of the `#include` lines of `shader_code`, each once, in
    /// the order of their first `#include`: the sources that `handle_hash`
    /// needs.
    pub fn include_requests(shader_code: &str) -> (res: Vec<String>)
        requires
            directives_named_in(lines(shader_code@)),
        ensures
            res@.map_values(|t: String| t@) == requested(lines(shader_code@), Seq::empty()),
    {
        let chars = chars_of(shader_code);
        let include_word = chars_of("include");
        let mut past: Vec<Vec<char>> = Vec::new();
        let mut pos: usize = 0;
        proof {
            assert(chars@.skip(0) =~= chars@);
            assert(seqs_of(past@) =~= Seq::<Seq<char>>::empty());
        }
        while pos < chars.len()
            invariant
                pos <= chars@.len(),
                chars@ == shader_code@,
                include_word@ == "include"@,
                requested(lines(shader_code@), Seq::empty()) == requested(lines(chars@.skip(pos as int)), seqs_of(past@)),
            decreases chars@.len() - pos,
        {
            let (end, next) = next_line(&chars, pos);
            let line = copy_range(&chars, pos, end);
            let ghost ls = lines(chars@.skip(pos as int));
            let ghost ps = seqs_of(past@);
            proof {
                assert(ls[0] == line@);
                assert(ls.skip(1) =~= lines(chars@.skip(next as int)));
            }
            match parse_line(&line) {
                None => {},
                Some((d, f)) => {
                    let dl = d.len();
                    proof {
                        assert(d@.subrange(0, dl as int) =~= d@);
                    }
                    if range_equals(&d, 0, dl, &include_word) && !contains_chars(&past, &f) {
                        past.push(f);
                        proof {
                            assert(seqs_of(past@) =~= ps.push(f@));
                        }
                    }
                },
            }
            pos = next;
        }
        proof {
            assert(chars@.skip(pos as int) =~= Seq::<char>::empty());
            assert(lines(Seq::<char>::empty()) =~= Seq::<Seq<char>>::empty());
        }
        let mut res: Vec<String> = Vec::new();
        let mut k: usize = 0;
        while k < past.len()
            invariant
                0 <= k <= past@.len(),
                res@.len() == k,
                forall|j: int| 0 <= j < k ==> #[trigger] res@[j]@ == past@[j]@,
            decreases past@.len() - k,
        {
            res.push(string_of(&past[k], 0, past[k].len()));
            proof {
                assert(past@[k as int]@.subrange(0, past@[k as int]@.len() as int) =~= past@[k as int]@);
            }
            k = k + 1;
        }
        proof {
            assert(res@.map_values(|t: String| t@) =~= seqs_of(past@));
        }
        res
    }

    /// The file name of an include target: the target without its `'"'`
    /// characters.
    pub fn include_file_name(following: &str) -> (res: String)
        ensures
            res@ == without_quotes(following@),
    {
        let chars = chars_of(following);
        let mut out = String::new();
        let mut i: usize = 0;
        while i < chars.len()
            invariant
                0 <= i <= chars@.len(),
                out@ == without_quotes(chars@.subrange(0, i as int)),
            decreases chars@.len() - i,
        {
            proof {
                assert(chars@.subrange(0, i + 1).drop_last() =~= chars@.subrange(0, i as int));
            }
            if chars[i] != '"' {
                push_char(&mut out, chars[i]);
            }
            i = i + 1;
        }
        proof {
            assert(chars@.subrange(0, i as int) =~= chars@);
        }
        out
    }

    /// Expands the directives of `shader_code`: `#test` lines become a
    /// comment; the first `#include` of each target is replaced by that
    /// target's code from `includes`, between comments, and later ones by a
    /// comment; every other line is kept. Each output line ends in `'\n'`.
    /// Fails, naming the target, when an included target has no source.
    pub fn handle_hash(shader_code: &str, includes: &Vec<IncludeSource>) -> (res: Result<String, PreprocessError>)
        requires
            directives_named_in(lines(shader_code@)),
        ensures
            match res {
                Ok(out) => process(lines(shader_code@), Seq::empty(), table_of(includes@)) == Ok::<Seq<char>, Seq<char>>(out@),
                Err(PreprocessError::MissingInclude(target)) => process(lines(shader_code@), Seq::empty(), table_of(includes@)) == Err::<Seq<char>, Seq<char>>(target@),
            },
    {
        let chars = chars_of(shader_code);
        let keys = keys_of(includes);
        let ghost t = table_of(includes@);
        let test = chars_of("test");
        let include_word = chars_of("include");
        let mut out = String::new();
        let mut past: Vec<Vec<char>> = Vec::new();
        let mut pos: usize = 0;
        proof {
            assert(chars@.skip(0) =~= chars@);
            assert(seqs_of(past@) =~= Seq::<Seq<char>>::empty());
            assert(out@ + Seq::<char>::empty() =~= out@);
        }
        while pos < chars.len()
            invariant
                pos <= chars@.len(),
                chars@ == shader_code@,
                t == table_of(includes@),
                test@ == "test"@,
                include_word@ == "include"@,
                keys@.len() == includes@.len(),
                forall|j: int| 0 <= j < keys@.len() ==> #[trigger] keys@[j]@ == includes@[j].directive@,
                process(lines(shader_code@), Seq::empty(), t) == prepend(
                    out@,
                    process(lines(chars@.skip(pos as int)), seqs_of(past@), t),
                ),
            decreases chars@.len() - pos,
        {
            let (end, next) = next_line(&chars, pos);
            let line = copy_range(&chars, pos, end);
            let ghost ls = lines(chars@.skip(pos as int));
            let ghost ps = seqs_of(past@);
            proof {
                assert(ls[0] == line@);
                assert(ls.skip(1) =~= lines(chars@.skip(next as int)));
            }
            let ghost before = out@;
            let r = step_line(&line, &mut past, &mut out, includes, &keys, &test, &include_word);
            match r {
                Some(target) => {
                    return Err(PreprocessError::MissingInclude(target));
                },
                None => {
                    proof {
                        if let Ok((text, p2)) = step(line@, ps, t) {
                            lemma_prepend_assoc(before, text, process(ls.skip(1), p2, t));
                        }
                    }
                },
            }
            pos = next;
        }
        proof {
            assert(chars@.skip(pos as int) =~= Seq::<char>::empty());
            assert(lines(Seq::<char>::empty()) =~= Seq::<Seq<char>>::empty());
            assert(out@ + Seq::<char>::empty() =~= out@);
        }
        Ok(out)
    }
}

/// Each line followed by `'\n'`.
pub open spec fn joined(lines: Seq<Seq<char>>) -> Seq<char>
    decreases lines.len(),
{
    if lines.len() == 0 {
        Seq::empty()
    } else {
        lines[0] + "\n"@ + joined(lines.skip(1))
    }
}

/// A line that the preprocessor copies: one without a `'#'`, or one whose
/// first word after the `'#'` is a directive other than `test` and
/// `include` (such as `define` or `ifdef`), whatever precedes the `'#'`.
pub open spec fn kept_line(line: Seq<char>) -> bool {
    match after_hash(line) {
        None => true,
        Some(rest) => first_word(rest) != "test"@ && first_word(rest) != "include"@,
    }
}

/// A line that is kept is copied as it is, followed by a line ending, and
/// changes nothing for the lines after it: the output of the whole is that
/// line, `'\n'`, then the output of the rest.
pub proof fn lemma_kept_line_copied(
    line: Seq<char>,
    rest: Seq<Seq<char>>,
    past: Seq<Seq<char>>,
    table: Seq<(Seq<char>, Seq<char>, Seq<char>)>,
)
    requires
        kept_line(line),
    ensures
        process(seq![line] + rest, past, table) == match process(rest, past, table) {
            Ok(t) => Ok::<Seq<char>, Seq<char>>(line + "\n"@ + t),
            Err(e) => Err::<Seq<char>, Seq<char>>(e),
        },
{
    let ls = seq![line] + rest;
    assert(ls[0] == line);
    assert(ls.skip(1) =~= rest);
    if let Ok(t) = process(rest, past, table) {
        assert(line + "\n"@ + t =~= (line + "\n"@) + t);
    }
}

/// Lines that are kept pass through unchanged: the output is each line
/// followed by a line ending, whatever includes were done before.
pub proof fn lemma_plain_lines_unchanged(lines: Seq<Seq<char>>, past: Seq<Seq<char>>, table: Seq<(Seq<char>, Seq<char>, Seq<char>)>)
    requires
        forall|i: int| 0 <= i < lines.len() ==> #[trigger] kept_line(lines[i]),
    ensures
        process(lines, past, table) == Ok::<Seq<char>, Seq<char>>(joined(lines)),
    decreases lines.len(),
{
    if lines.len() > 0 {
        assert(kept_line(lines[0]));
        assert forall|i: int| 0 <= i < lines.skip(1).len() implies #[trigger] kept_line(lines.skip(1)[i]) by {
            assert(lines.skip(1)[i] == lines[i + 1]);
        }
        lemma_plain_lines_unchanged(lines.skip(1), past, table);
        assert(lines[0] + "\n"@ + joined(lines.skip(1)) =~= (lines[0] + "\n"@) + joined(lines.skip(1)));
    }
}

/// The requested targets extend the targets included before.
pub proof fn lemma_requested_extends(lines: Seq<Seq<char>>, past: Seq<Seq<char>>, x: Seq<char>)
    requires
        past.contains(x),
    ensures
        requested(lines, past).contains(x),
    decreases lines.len(),
{
    if lines.len() > 0 {
        let next = match after_hash(lines[0]) {
            Some(rest) => if first_word(rest) == "include"@ && !past.contains(second_word(rest)) {
                past.push(second_word(rest))
            } else {
                past
            },
            None => past,
        };
        let i = choose|i: int| 0 <= i < past.len() && past[i] == x;
        assert(next[i] == x);
        lemma_requested_extends(lines.skip(1), next, x);
    }
}

/// Each target is requested once: starting from distinct targets, the
/// requested targets are distinct.
pub proof fn lemma_requested_distinct(lines: Seq<Seq<char>>, past: Seq<Seq<char>>)
    requires
        past.no_duplicates(),
    ensures
        requested(lines, past).no_duplicates(),
    decreases lines.len(),
{
    if lines.len() > 0 {
        let next = match after_hash(lines[0]) {
            Some(rest) => if first_word(rest) == "include"@ && !past.contains(second_word(rest)) {
                past.push(second_word(rest))
            } else {
                past
            },
            None => past,
        };
        assert(next.no_duplicates());
        lemma_requested_distinct(lines.skip(1), next);
    }
}

/// Preprocessing succeeds exactly when every target requested beyond those
/// already included has a source: the sources for `requested` targets are
/// all that is needed.
pub proof fn lemma_process_ok_iff_sources(lines: Seq<Seq<char>>, past: Seq<Seq<char>>, table: Seq<(Seq<char>, Seq<char>, Seq<char>)>)
    ensures
        process(lines, past, table) is Ok <==> (forall|x: Seq<char>|
            #[trigger] requested(lines, past).contains(x) && !past.contains(x) ==> lookup(table, x) is Some),
    decreases lines.len(),
{
    if lines.len() > 0 {
        let line = lines[0];
        let rest_lines = lines.skip(1);
        let new_include = match after_hash(line) {
            Some(rest) => first_word(rest) == "include"@ && !past.contains(second_word(rest)),
            None => false,
        };
        if !new_include {
            lemma_process_ok_iff_sources(rest_lines, past, table);
            assert(requested(lines, past) == requested(rest_lines, past));
            assert(process(lines, past, table) is Ok == process(rest_lines, past, table) is Ok);
        } else {
            let rest = after_hash(line)->0;
            let f = second_word(rest);
            reveal_strlit("test");
            reveal_strlit("include");
            assert("test"@.len() != "include"@.len());
            let next = past.push(f);
            assert(requested(lines, past) == requested(rest_lines, next));
            assert(next[past.len() as int] == f);
            assert(next.contains(f));
            lemma_requested_extends(rest_lines, next, f);
            lemma_process_ok_iff_sources(rest_lines, next, table);
            if lookup(table, f) is None {
                assert(!(process(lines, past, table) is Ok));
                assert(requested(lines, past).contains(f) && !past.contains(f));
            } else {
                assert(process(lines, past, table) is Ok == process(rest_lines, next, table) is Ok);
                if forall|x: Seq<char>| #[trigger] requested(rest_lines, next).contains(x) && !next.contains(x) ==> lookup(table, x) is Some {
                    assert forall|x: Seq<char>| #[trigger] requested(lines, past).contains(x) && !past.contains(x) implies lookup(table, x) is Some by {
                        if x != f {
                            if next.contains(x) {
                                let i = choose|i: int| 0 <= i < next.len() && next[i] == x;
                                if i < past.len() {
                                    assert(past[i] == x);
                                }
                            }
                        }
                    }
                }
                if forall|x: Seq<char>| #[trigger] requested(lines, past).contains(x) && !past.contains(x) ==> lookup(table, x) is Some {
                    assert forall|x: Seq<char>| #[trigger] requested(rest_lines, next).contains(x) && !next.contains(x) implies lookup(table, x) is Some by {
                        if past.contains(x) {
                            let i = choose|i: int| 0 <= i < past.len() && past[i] == x;
                            assert(next[i] == x);
                        }
                    }
                }
            }
        }
    }
}

} // verus!
