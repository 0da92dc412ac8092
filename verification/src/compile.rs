//! Compilation endpoint types and the compiler-log parser.
//!
//! The parser walks a build log line by line: a line opening with `!` is
//! an error whose message is the line with its leading bangs and
//! surrounding white-space removed, attributed to the nearest preceding
//! line that carries a `.tex:` marker; a line mentioning `Warning:` (in
//! either case) is a warning carried verbatim.

use vstd::prelude::*;

use crate::text::{
    contains_sub, find_char, find_sub, first_index_of, last_index_of, parse_i32,
    rfind_char, skip_leading, spec_lines, spec_parse_i32, split_lines, sub_pos, trim, trim_spec,
};

verus! {

/// Body of a compilation request: the entry file to build, when given.
pub struct CompileRequest {
    pub main_file: Option<String>,
}

/// One error found in a build log.
pub struct CompileError {
    pub file: String,
    pub line: Option<i32>,
    pub message: String,
}

/// One warning found in a build log.
pub struct CompileWarning {
    pub file: String,
    pub line: Option<i32>,
    pub message: String,
}

/// Outcome of a compilation request.
pub struct CompileResponse {
    pub success: bool,
    pub pdf_url: Option<String>,
    pub log: String,
    pub errors: Vec<CompileError>,
    pub warnings: Vec<CompileWarning>,
}

/// Path parameters of a rendered-artifact request.
pub struct PdfParams {
    pub project_id: String,
    pub filename: String,
}

/// Model of one reported error or warning.
#[verifier::ext_equal]
pub ghost struct NoteModel {
    pub file: Seq<char>,
    pub line: Option<i32>,
    pub message: Seq<char>,
}

impl View for CompileError {
    type V = NoteModel;

    open spec fn view(&self) -> NoteModel {
        NoteModel { file: self.file@, line: self.line, message: self.message@ }
    }
}

impl DeepView for CompileError {
    type V = NoteModel;

    open spec fn deep_view(&self) -> NoteModel {
        self.view()
    }
}

impl View for CompileWarning {
    type V = NoteModel;

    open spec fn view(&self) -> NoteModel {
        NoteModel { file: self.file@, line: self.line, message: self.message@ }
    }
}

impl DeepView for CompileWarning {
    type V = NoteModel;

    open spec fn deep_view(&self) -> NoteModel {
        self.view()
    }
}

/// The `.tex:` marker that attributes an error to a source line.
pub open spec fn tex_marker() -> Seq<char> {
    seq!['.', 't', 'e', 'x', ':']
}

/// The two spellings of the warning marker.
pub open spec fn warn_upper() -> Seq<char> {
    seq!['W', 'a', 'r', 'n', 'i', 'n', 'g', ':']
}

pub open spec fn warn_lower() -> Seq<char> {
    seq!['w', 'a', 'r', 'n', 'i', 'n', 'g', ':']
}

/// An error line opens with a bang.
pub open spec fn is_error_line(l: Seq<char>) -> bool {
    l.len() > 0 && l[0] == '!'
}

/// A warning line mentions `Warning:` or `warning:`.
pub open spec fn is_warning_line(l: Seq<char>) -> bool {
    contains_sub(l, warn_upper()) || contains_sub(l, warn_lower())
}

/// Leading bangs removed.
pub open spec fn skip_bangs(l: Seq<char>) -> Seq<char>
    decreases l.len(),
{
    if l.len() > 0 && l[0] == '!' {
        skip_bangs(l.drop_first())
    } else {
        l
    }
}

/// `skip_bangs` drops exactly the maximal run of leading bangs.
proof fn lemma_skip_bangs(l: Seq<char>, k: int)
    requires
        0 <= k <= l.len(),
        forall|j: int| 0 <= j < k ==> l[j] == '!',
        k < l.len() ==> l[k] != '!',
    ensures
        skip_bangs(l) =~= l.skip(k),
    decreases l.len(),
{
    if k == 0 {
        assert(l.skip(0) =~= l);
    } else {
        lemma_skip_bangs(l.drop_first(), k - 1);
        assert(l.drop_first().skip(k - 1) =~= l.skip(k));
    }
}

/// The message of an error line: leading bangs, then white-space, removed.
pub open spec fn error_message(l: Seq<char>) -> Seq<char> {
    trim_spec(skip_bangs(l))
}

/// File and line read out of a marker line: the file is everything up to
/// and including `.tex`, shortened to what follows its last opening
/// parenthesis; the line number is what parses between the marker and the
/// first colon — or, failing a colon, the first blank — after it.
pub open spec fn line_source(l: Seq<char>) -> (Seq<char>, Option<i32>) {
    let pos = sub_pos(l, tex_marker());
    let rest = l.skip(pos + 5);
    let file0 = l.take(pos + 4);
    let file = if last_index_of(file0, '(') >= 0 {
        file0.skip(last_index_of(file0, '(') + 1)
    } else {
        file0
    };
    let num = if first_index_of(rest, ':') < rest.len() {
        spec_parse_i32(rest.take(first_index_of(rest, ':')))
    } else if first_index_of(rest, ' ') < rest.len() {
        spec_parse_i32(rest.take(first_index_of(rest, ' ')))
    } else {
        Option::<i32>::None
    };
    (file, num)
}

/// The source attribution of an error on line `i`: the nearest preceding
/// line carrying the `.tex:` marker decides; with none, the file is empty
/// and no line number is given.
pub open spec fn find_source(lines: Seq<Seq<char>>, i: int) -> (Seq<char>, Option<i32>)
    decreases i,
{
    if i <= 0 {
        (Seq::empty(), Option::<i32>::None)
    } else if contains_sub(lines[i - 1], tex_marker()) {
        line_source(lines[i - 1])
    } else {
        find_source(lines, i - 1)
    }
}

/// The error reported for line `i`.
pub open spec fn error_entry(lines: Seq<Seq<char>>, i: int) -> NoteModel {
    NoteModel {
        file: find_source(lines, i).0,
        line: find_source(lines, i).1,
        message: error_message(lines[i]),
    }
}

/// The warning reported for line `i`: the line itself, unattributed.
pub open spec fn warning_entry(lines: Seq<Seq<char>>, i: int) -> NoteModel {
    NoteModel { file: Seq::empty(), line: Option::<i32>::None, message: lines[i] }
}

/// The errors of the first `n` lines, in order.
pub open spec fn spec_errors(lines: Seq<Seq<char>>, n: int) -> Seq<NoteModel>
    decreases n,
{
    if n <= 0 {
        Seq::empty()
    } else if is_error_line(lines[n - 1]) {
        spec_errors(lines, n - 1).push(error_entry(lines, n - 1))
    } else {
        spec_errors(lines, n - 1)
    }
}

/// The warnings of the first `n` lines, in order.
pub open spec fn spec_warnings(lines: Seq<Seq<char>>, n: int) -> Seq<NoteModel>
    decreases n,
{
    if n <= 0 {
        Seq::empty()
    } else if is_warning_line(lines[n - 1]) {
        spec_warnings(lines, n - 1).push(warning_entry(lines, n - 1))
    } else {
        spec_warnings(lines, n - 1)
    }
}

/// All errors of a log.
pub open spec fn latex_errors(log: Seq<char>) -> Seq<NoteModel> {
    spec_errors(spec_lines(log), spec_lines(log).len() as int)
}

/// All warnings of a log.
pub open spec fn latex_warnings(log: Seq<char>) -> Seq<NoteModel> {
    spec_warnings(spec_lines(log), spec_lines(log).len() as int)
}

/// Walk back from line `i` to the nearest preceding `.tex:` marker line
/// and read the file and line number out of it.
fn find_source_exec(lines: &Vec<&str>, i: usize) -> (r: (String, Option<i32>))
    requires
        i <= lines@.len(),
    ensures
        (r.0@, r.1) == find_source(lines.deep_view(), i as int),
{
    let ghost dv = lines.deep_view();
    let mut j = i;
    while j > 0
        invariant
            j <= i <= lines@.len(),
            dv == lines.deep_view(),
            find_source(dv, i as int) == find_source(dv, j as int),
        decreases j,
    {
        let prev = lines[j - 1];
        proof {
            reveal_strlit(".tex:");
            assert(".tex:"@ =~= tex_marker());
            assert(prev@ == dv[j - 1]);
        }
        match find_sub(prev, ".tex:") {
            Some(pos) => {
                proof {
                    assert(contains_sub(dv[j - 1], tex_marker()));
                    assert(find_source(dv, j as int) == line_source(dv[j - 1]));
                    crate::text::lemma_sub_pos(prev@, tex_marker());
                }
                let plen = prev.unicode_len();
                let rest = prev.substring_char(pos + 5, plen);
                let file0 = prev.substring_char(0, pos + 4);
                proof {
                    assert(rest@ =~= prev@.skip(pos + 5));
                    assert(file0@ =~= prev@.take(pos + 4));
                }
                let rlen = rest.unicode_len();
                let cpos = find_char(rest, ':');
                let num = if cpos < rlen {
                    parse_i32(rest.substring_char(0, cpos))
                } else {
                    let spos = find_char(rest, ' ');
                    if spos < rlen {
                        parse_i32(rest.substring_char(0, spos))
                    } else {
                        None
                    }
                };
                proof {
                    assert(rest@.take(first_index_of(rest@, ':')) =~= rest@.subrange(
                        0,
                        first_index_of(rest@, ':'),
                    ));
                    assert(rest@.take(first_index_of(rest@, ' ')) =~= rest@.subrange(
                        0,
                        first_index_of(rest@, ' '),
                    ));
                    assert(num == line_source(dv[j - 1]).1);
                }
                let lp = rfind_char(file0, '(');
                proof {
                    crate::text::lemma_last_index_of(file0@, '(');
                    assert(file0@.len() == pos + 4);
                }
                let file = if lp > 0 {
                    file0.substring_char(lp, pos + 4)
                } else {
                    file0
                };
                proof {
                    crate::text::lemma_last_index_of(file0@, '(');
                    if lp > 0 {
                        assert(file@ =~= file0@.skip(last_index_of(file0@, '(') + 1));
                    }
                    assert(file@ == line_source(dv[j - 1]).0);
                }
                return (file.to_owned(), num);
            },
            None => {
                proof {
                    assert(!contains_sub(dv[j - 1], tex_marker()));
                    assert(find_source(dv, j as int) == find_source(dv, j - 1));
                }
                j -= 1;
            },
        }
    }
    proof {
        assert(find_source(dv, 0) == (Seq::<char>::empty(), Option::<i32>::None));
    }
    (String::new(), None)
}

/// Whether a line mentions the warning marker in either spelling.
fn is_warning_exec(l: &str) -> (r: bool)
    ensures
        r == is_warning_line(l@),
{
    proof {
        reveal_strlit("Warning:");
        reveal_strlit("warning:");
        assert("Warning:"@ =~= warn_upper());
        assert("warning:"@ =~= warn_lower());
    }
    let up = find_sub(l, "Warning:");
    if up.is_some() {
        return true;
    }
    let low = find_sub(l, "warning:");
    low.is_some()
}

/// Read the errors and warnings out of a build log, as [`latex_errors`]
/// and [`latex_warnings`] describe.
pub fn parse_latex_log(log: &str) -> (r: (Vec<CompileError>, Vec<CompileWarning>))
    ensures
        r.0.deep_view() == latex_errors(log@),
        r.1.deep_view() == latex_warnings(log@),
{
    let lines = split_lines(log);
    let ghost dv = lines.deep_view();
    let nlines = lines.len();
    let mut errors: Vec<CompileError> = Vec::new();
    let mut warnings: Vec<CompileWarning> = Vec::new();
    for i in 0..nlines
        invariant
            dv == lines.deep_view(),
            dv == spec_lines(log@),
            nlines == lines@.len(),
            nlines == dv.len(),
            errors.deep_view() == spec_errors(dv, i as int),
            warnings.deep_view() == spec_warnings(dv, i as int),
    {
        let cur = lines[i];
        proof {
            assert(cur@ == dv[i as int]);
        }
        let clen = cur.unicode_len();
        if clen > 0 && cur.get_char(0) == '!' {
            let a = skip_leading(cur, '!');
            let tail = cur.substring_char(a, clen);
            let msg = trim(tail);
            let (file, num) = find_source_exec(&lines, i);
            proof {
                lemma_skip_bangs(cur@, a as int);
                assert(tail@ =~= cur@.skip(a as int));
                assert(msg@ == error_message(dv[i as int]));
            }
            let entry = CompileError { file, line: num, message: msg.to_owned() };
            errors.push(entry);
            proof {
                assert(errors.deep_view() =~~= spec_errors(dv, i + 1));
            }
        } else {
            proof {
                assert(!is_error_line(dv[i as int]));
                assert(errors.deep_view() =~~= spec_errors(dv, i + 1));
            }
        }
        if is_warning_exec(cur) {
            let entry = CompileWarning {
                file: String::new(),
                line: None,
                message: cur.to_owned(),
            };
            warnings.push(entry);
            proof {
                assert(warnings.deep_view() =~~= spec_warnings(dv, i + 1));
            }
        } else {
            proof {
                assert(warnings.deep_view() =~~= spec_warnings(dv, i + 1));
            }
        }
    }
    (errors, warnings)
}

} // verus!

verus! {

/// The source extension a build consumes and the artifact extension it
/// produces.
pub open spec fn tex_ext() -> Seq<char> {
    seq!['.', 't', 'e', 'x']
}

pub open spec fn pdf_ext() -> Seq<char> {
    seq!['.', 'p', 'd', 'f']
}

/// The entry file a compilation request names, `main.tex` when it names
/// none.
pub fn default_main_file(main_file: Option<String>) -> (r: String)
    ensures
        main_file matches Some(f) ==> r@ == f@,
        main_file is None ==> r@ == "main.tex"@,
{
    match main_file {
        Some(f) => f,
        None => "main.tex".to_owned(),
    }
}

/// The artifact name of an entry file: every `.tex` in it rewritten to
/// `.pdf`.
pub fn pdf_name_of(main_file: &str) -> (r: String)
    ensures
        r@ == crate::text::replace_spec(main_file@, tex_ext(), pdf_ext()),
{
    proof {
        reveal_strlit(".tex");
        reveal_strlit(".pdf");
        assert(".tex"@ =~= tex_ext());
        assert(".pdf"@ =~= pdf_ext());
    }
    crate::text::replace_all(main_file, ".tex", ".pdf")
}

/// Where a project's rendered artifact is served.
pub fn pdf_url(project_id: &str, pdf_name: &str) -> (r: String)
    ensures
        r@ == "/api/compile/project/"@ + project_id@ + "/pdf/"@ + pdf_name@,
{
    let mut s: String = "/api/compile/project/".to_owned();
    s.append(project_id);
    s.append("/pdf/");
    s.append(pdf_name);
    proof {
        assert(s@ =~= "/api/compile/project/"@ + project_id@ + "/pdf/"@ + pdf_name@);
    }
    s
}

/// Whether `s` ends with `suffix`.
pub open spec fn ends_with(s: Seq<char>, suffix: Seq<char>) -> bool {
    s.len() >= suffix.len() && s.skip(s.len() - suffix.len()) == suffix
}

/// An artifact request is served exactly when the artifact exists on disk
/// and the requested name carries the `.pdf` extension.
pub fn pdf_request_ok(pdf_exists: bool, filename: &str) -> (r: bool)
    ensures
        r == (pdf_exists && ends_with(filename@, pdf_ext())),
{
    if !pdf_exists {
        return false;
    }
    let n = filename.unicode_len();
    if n < 4 {
        return false;
    }
    let ok = filename.get_char(n - 4) == '.' && filename.get_char(n - 3) == 'p'
        && filename.get_char(n - 2) == 'd' && filename.get_char(n - 1) == 'f';
    proof {
        let suf = filename@.skip(n - 4);
        assert(suf.len() == 4);
        assert(suf[0] == filename@[n - 4] && suf[1] == filename@[n - 3] && suf[2] == filename@[n
            - 2] && suf[3] == filename@[n - 1]);
        if ok {
            assert(suf =~= pdf_ext());
        } else {
            assert(suf != pdf_ext()) by {
                if suf == pdf_ext() {
                    assert(suf[0] == '.' && suf[1] == 'p' && suf[2] == 'd' && suf[3] == 'f');
                }
            }
        }
    }
    ok
}

} // verus!
