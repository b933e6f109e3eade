//! Translation of whole VM files: each line read, each command written,
//! stopping at the first line that cannot be read or written.
use vstd::prelude::*;
use crate::text::decimal;
use crate::vm::codewriter::{
    bootstrap_ins, call_ins, fits, init_step, label_count,
    lemma_step_refuses_only_constant_pop, step, CodeWriter,
};
use crate::vm::parser::{
    line_command, line_error, line_error_string, read_line, CmdModel, Segment, TranslateError,
    access_of, line_words, ascii_line_command, all_ascii,
};
use crate::vm::writer_model::WriterModel;
use crate::vm::instr::listing;

verus! {

/// The error a translation stops on, as text.
pub enum ErrorModel {
    Parse(Seq<char>),
    Write(Seq<char>),
}

impl View for TranslateError {
    type V = ErrorModel;

    open spec fn view(&self) -> ErrorModel {
        match self {
            TranslateError::Parse(s) => ErrorModel::Parse(s@),
            TranslateError::Write(s) => ErrorModel::Write(s@),
        }
    }
}

/// The command on a line, its words read as ASCII where `ascii` holds.
pub open spec fn line_command_by(line: Seq<char>, ascii: bool) -> Option<Result<CmdModel, Seq<char>>> {
    if ascii {
        ascii_line_command(line)
    } else {
        line_command(line)
    }
}

/// The writer after the lines of one file, or the error it stops on.
pub open spec fn run_lines(m: WriterModel, lines: Seq<Seq<char>>) -> Result<WriterModel, ErrorModel> {
    run_lines_by(m, lines, false)
}

/// `run_lines` with the lines read as ASCII where `ascii` holds.
pub open spec fn run_lines_by(m: WriterModel, lines: Seq<Seq<char>>, ascii: bool) -> Result<WriterModel, ErrorModel>
    decreases lines.len(),
{
    if lines.len() == 0 {
        Ok(m)
    } else {
        match run_lines_by(m, lines.drop_last(), ascii) {
            Err(e) => Err(e),
            Ok(m1) => match line_command_by(lines.last(), ascii) {
                None => Ok(m1),
                Some(Err(msg)) => Err(ErrorModel::Parse(line_error(lines.len(), msg))),
                Some(Ok(c)) => match step(m1, c) {
                    Err(e) => Err(ErrorModel::Write(e)),
                    Ok(m2) => Ok(m2),
                },
            },
        }
    }
}

/// A command read from a line fits any writer whose counters have room.
proof fn lemma_read_command_fits(line: Seq<char>, m: WriterModel)
    requires
        line_command(line) matches Some(Ok(c)),
        label_count(m.labels, "COMP_RTRN"@) < 0xffff_ffff,
        label_count(m.labels, "RTRN_CALL"@) < 0xffff_ffff,
    ensures
        line_command(line) matches Some(Ok(c)) && fits(m, c),
{
    let ws = line_words(line);
    let args = ws.skip(1);
    if let Some(Ok(c)) = line_command(line) {
        match c {
            CmdModel::Push(Segment::Temp, i) => {
                lemma_access_temp(args, true);
            },
            CmdModel::Pop(Segment::Temp, i) => {
                lemma_access_temp(args, false);
            },
            _ => {},
        }
    }
}

proof fn lemma_access_temp(args: Seq<Seq<char>>, push: bool)
    ensures
        access_of(args, push) matches Ok(CmdModel::Push(Segment::Temp, i)) ==> i <= 7,
        access_of(args, push) matches Ok(CmdModel::Pop(Segment::Temp, i)) ==> i <= 7,
{
}

/// The counters grow by at most one per line.
proof fn lemma_run_counts(m: WriterModel, lines: Seq<Seq<char>>)
    ensures
        run_lines(m, lines) matches Ok(m2) ==> label_count(m2.labels, "COMP_RTRN"@) <= label_count(
            m.labels,
            "COMP_RTRN"@,
        ) + lines.len() && label_count(m2.labels, "RTRN_CALL"@) <= label_count(
            m.labels,
            "RTRN_CALL"@,
        ) + lines.len(),
    decreases lines.len(),
{
    if lines.len() > 0 {
        lemma_run_counts(m, lines.drop_last());
    }
}

/// The writer as it stands when a run of `lines` stops on an error: after
/// the lines before the one that fails.
pub open spec fn state_at_error(m: WriterModel, lines: Seq<Seq<char>>) -> WriterModel {
    state_at_error_by(m, lines, false)
}

/// `state_at_error` with the lines read as ASCII where `ascii` holds.
pub open spec fn state_at_error_by(m: WriterModel, lines: Seq<Seq<char>>, ascii: bool) -> WriterModel
    decreases lines.len(),
{
    if lines.len() == 0 {
        m
    } else {
        match run_lines_by(m, lines.drop_last(), ascii) {
            Err(_) => state_at_error_by(m, lines.drop_last(), ascii),
            Ok(m1) => m1,
        }
    }
}

proof fn lemma_state_at_error_prefix(m: WriterModel, lines: Seq<Seq<char>>, k: int, ascii: bool)
    requires
        0 <= k <= lines.len(),
        run_lines_by(m, lines.take(k), ascii) is Err,
    ensures
        state_at_error_by(m, lines, ascii) == state_at_error_by(m, lines.take(k), ascii),
    decreases lines.len() - k,
{
    if k < lines.len() {
        assert(lines.take(k + 1).drop_last() =~= lines.take(k));
        lemma_state_at_error_prefix(m, lines, k + 1, ascii);
    } else {
        assert(lines.take(k) =~= lines);
    }
}

/// Translates the lines of one VM file named `name` (the name prefixes its
/// static variables).
pub fn translate_file(writer: &mut CodeWriter, name: &str, lines: &Vec<String>) -> (r: Result<
    (),
    TranslateError,
>)
    requires
        old(writer).wf(),
        label_count(old(writer)@.labels, "COMP_RTRN"@) + lines@.len() < 0xffff_ffff,
        label_count(old(writer)@.labels, "RTRN_CALL"@) + lines@.len() < 0xffff_ffff,
    ensures
        final(writer).wf(),
        match r {
            Ok(()) => run_lines(
                WriterModel { file: name@, ..old(writer)@ },
                lines@.map_values(|s: String| s@),
            ) == Ok::<WriterModel, ErrorModel>(final(writer)@),
            Err(e) => run_lines(
                WriterModel { file: name@, ..old(writer)@ },
                lines@.map_values(|s: String| s@),
            ) == Err::<WriterModel, ErrorModel>(e@) && final(writer)@ == state_at_error(
                WriterModel { file: name@, ..old(writer)@ },
                lines@.map_values(|s: String| s@),
            ),
        },
        all_ascii(lines@.map_values(|s: String| s@)) ==> match r {
            Ok(()) => run_lines_by(
                WriterModel { file: name@, ..old(writer)@ },
                lines@.map_values(|s: String| s@),
                true,
            ) == Ok::<WriterModel, ErrorModel>(final(writer)@),
            Err(e) => run_lines_by(
                WriterModel { file: name@, ..old(writer)@ },
                lines@.map_values(|s: String| s@),
                true,
            ) == Err::<WriterModel, ErrorModel>(e@) && final(writer)@ == state_at_error_by(
                WriterModel { file: name@, ..old(writer)@ },
                lines@.map_values(|s: String| s@),
                true,
            ),
        },
{
    writer.set_file_name(name);
    let ghost m0 = writer@;
    let ghost lv = lines@.map_values(|s: String| s@);
    let mut i: usize = 0;
    assert(lv.take(0) =~= Seq::<Seq<char>>::empty());
    while i < lines.len()
        invariant
            i <= lines@.len(),
            lv == lines@.map_values(|s: String| s@),
            writer.wf(),
            m0 == (WriterModel { file: name@, ..old(writer)@ }),
            label_count(m0.labels, "COMP_RTRN"@) + lines@.len() < 0xffff_ffff,
            label_count(m0.labels, "RTRN_CALL"@) + lines@.len() < 0xffff_ffff,
            run_lines(m0, lv.take(i as int)) == Ok::<WriterModel, ErrorModel>(writer@),
            all_ascii(lv) ==> run_lines_by(m0, lv.take(i as int), true) == Ok::<WriterModel, ErrorModel>(
                writer@,
            ),
        decreases lines@.len() - i,
    {
        let ghost t = lv.take(i + 1);
        assert(t.drop_last() =~= lv.take(i as int));
        assert(t.last() == lines@[i as int]@);
        assert(t.len() == i + 1);
        proof {
            lemma_run_counts(m0, lv.take(i as int));
            lemma_run_prefix_err(m0, lv, (i + 1) as int, false);
            lemma_run_prefix_err(m0, lv, (i + 1) as int, true);
            if all_ascii(lv) {
                assert(vstd::utf8::is_ascii_chars(lv[i as int]));
            }
        }
        match read_line(lines[i].as_str()) {
            None => {},
            Some(Err(msg)) => {
                let e = line_error_string(i + 1, msg.as_str());
                assert(run_lines(m0, t) == Err::<WriterModel, ErrorModel>(
                    ErrorModel::Parse(line_error((i + 1) as nat, msg@)),
                ));
                proof {
                    lemma_state_at_error_prefix(m0, lv, (i + 1) as int, false);
                    if all_ascii(lv) {
                        lemma_state_at_error_prefix(m0, lv, (i + 1) as int, true);
                    }
                }
                return Err(TranslateError::Parse(e));
            },
            Some(Ok(cmd)) => {
                proof {
                    lemma_read_command_fits(lv[i as int], writer@);
                }
                match writer.command(cmd) {
                    Ok(()) => {},
                    Err(e) => {
                        assert(run_lines(m0, t) == Err::<WriterModel, ErrorModel>(
                            ErrorModel::Write(e@),
                        ));
                        proof {
                            lemma_state_at_error_prefix(m0, lv, (i + 1) as int, false);
                            if all_ascii(lv) {
                                lemma_state_at_error_prefix(m0, lv, (i + 1) as int, true);
                            }
                        }
                        return Err(TranslateError::Write(e));
                    },
                }
            },
        }
        i = i + 1;
    }
    assert(lv.take(lines@.len() as int) =~= lv);
    Ok(())
}

proof fn lemma_run_prefix_err(m: WriterModel, lines: Seq<Seq<char>>, k: int, ascii: bool)
    requires
        0 <= k <= lines.len(),
    ensures
        run_lines_by(m, lines.take(k), ascii) is Err ==> run_lines_by(m, lines, ascii) == run_lines_by(
            m,
            lines.take(k),
            ascii,
        ),
    decreases lines.len() - k,
{
    if k < lines.len() {
        assert(lines.take(k + 1).drop_last() =~= lines.take(k));
        lemma_run_prefix_err(m, lines, k + 1, ascii);
    } else {
        assert(lines.take(k) =~= lines);
    }
}

/// The writer after the bootstrap and every file in turn, or the index of
/// the file that stops the translation and its error.
pub open spec fn run_files(m: WriterModel, files: Seq<(Seq<char>, Seq<Seq<char>>)>) -> Result<
    WriterModel,
    (int, ErrorModel),
> {
    run_files_by(m, files, false)
}

/// `run_files` with the lines read as ASCII where `ascii` holds.
pub open spec fn run_files_by(m: WriterModel, files: Seq<(Seq<char>, Seq<Seq<char>>)>, ascii: bool) -> Result<
    WriterModel,
    (int, ErrorModel),
>
    decreases files.len(),
{
    if files.len() == 0 {
        Ok(m)
    } else {
        match run_files_by(m, files.drop_last(), ascii) {
            Err(e) => Err(e),
            Ok(m1) => match run_lines_by(WriterModel { file: files.last().0, ..m1 }, files.last().1, ascii) {
                Err(e) => Err((files.len() - 1, e)),
                Ok(m2) => Ok(m2),
            },
        }
    }
}

/// The texts of a list of files (name and lines).
pub open spec fn file_views(files: Seq<(String, Vec<String>)>) -> Seq<(Seq<char>, Seq<Seq<char>>)> {
    files.map_values(|f: (String, Vec<String>)| (f.0@, f.1@.map_values(|s: String| s@)))
}

/// The total number of lines of the files.
pub open spec fn total_lines(files: Seq<(Seq<char>, Seq<Seq<char>>)>) -> nat
    decreases files.len(),
{
    if files.len() == 0 {
        0
    } else {
        total_lines(files.drop_last()) + files.last().1.len()
    }
}

/// The writer that the translator starts from.
pub open spec fn fresh_writer() -> WriterModel {
    WriterModel { file: "Sys"@, function: "init"@, labels: Map::empty(), lines: Seq::empty() }
}

/// The assembly of a whole program: bootstrap, then each file (named by its
/// stem) in turn.
pub open spec fn translation(files: Seq<(Seq<char>, Seq<Seq<char>>)>) -> Result<
    Seq<Seq<char>>,
    (int, ErrorModel),
> {
    translation_by(files, false)
}

/// `translation` of a program whose lines are all ASCII, read as ASCII.
pub open spec fn ascii_translation(files: Seq<(Seq<char>, Seq<Seq<char>>)>) -> Result<
    Seq<Seq<char>>,
    (int, ErrorModel),
> {
    translation_by(files, true)
}

/// The assembly of a whole program, its lines read as ASCII where `ascii`
/// holds.
pub open spec fn translation_by(files: Seq<(Seq<char>, Seq<Seq<char>>)>, ascii: bool) -> Result<
    Seq<Seq<char>>,
    (int, ErrorModel),
> {
    match run_files_by(init_step(fresh_writer()), files, ascii) {
        Ok(m) => Ok(m.lines),
        Err(e) => Err(e),
    }
}

/// Whether every line of every file is ASCII.
pub open spec fn all_ascii_files(files: Seq<(Seq<char>, Seq<Seq<char>>)>) -> bool {
    forall|k: int| 0 <= k < files.len() ==> all_ascii(#[trigger] files[k].1)
}

proof fn lemma_run_files_counts(m: WriterModel, files: Seq<(Seq<char>, Seq<Seq<char>>)>)
    ensures
        run_files(m, files) matches Ok(m2) ==> label_count(m2.labels, "COMP_RTRN"@) <= label_count(
            m.labels,
            "COMP_RTRN"@,
        ) + total_lines(files) && label_count(m2.labels, "RTRN_CALL"@) <= label_count(
            m.labels,
            "RTRN_CALL"@,
        ) + total_lines(files),
    decreases files.len(),
{
    if files.len() > 0 {
        lemma_run_files_counts(m, files.drop_last());
        if let Ok(m1) = run_files(m, files.drop_last()) {
            lemma_run_counts(WriterModel { file: files.last().0, ..m1 }, files.last().1);
        }
    }
}

proof fn lemma_run_files_prefix_err(
    m: WriterModel,
    files: Seq<(Seq<char>, Seq<Seq<char>>)>,
    k: int,
    ascii: bool,
)
    requires
        0 <= k <= files.len(),
    ensures
        run_files_by(m, files.take(k), ascii) is Err ==> run_files_by(m, files, ascii) == run_files_by(
            m,
            files.take(k),
            ascii,
        ),
    decreases files.len() - k,
{
    if k < files.len() {
        assert(files.take(k + 1).drop_last() =~= files.take(k));
        lemma_run_files_prefix_err(m, files, k + 1, ascii);
    } else {
        assert(files.take(k) =~= files);
    }
}

proof fn lemma_total_lines_prefix(files: Seq<(Seq<char>, Seq<Seq<char>>)>, k: int)
    requires
        0 <= k <= files.len(),
    ensures
        total_lines(files.take(k)) <= total_lines(files),
        k < files.len() ==> total_lines(files.take(k)) + files[k].1.len() <= total_lines(files),
    decreases files.len() - k,
{
    if k < files.len() {
        assert(files.take(k + 1).drop_last() =~= files.take(k));
        lemma_total_lines_prefix(files, k + 1);
    } else {
        assert(files.take(k) =~= files);
    }
}

proof fn lemma_run_lines_appends(m: WriterModel, lines: Seq<Seq<char>>)
    ensures
        run_lines(m, lines) matches Ok(m2) ==> m2.lines.len() >= m.lines.len() && m2.lines.take(
            m.lines.len() as int,
        ) == m.lines,
    decreases lines.len(),
{
    if lines.len() > 0 {
        lemma_run_lines_appends(m, lines.drop_last());
        if let Ok(m1) = run_lines(m, lines.drop_last()) {
            if let Some(Ok(c)) = line_command(lines.last()) {
                lemma_step_refuses_only_constant_pop(m1, c);
                if let Ok(m2) = step(m1, c) {
                    assert(m2.lines.take(m.lines.len() as int) =~= m1.lines.take(m1.lines.len() as int).take(
                        m.lines.len() as int,
                    ));
                }
            }
        }
    }
}

proof fn lemma_run_files_appends(m: WriterModel, files: Seq<(Seq<char>, Seq<Seq<char>>)>)
    ensures
        run_files(m, files) matches Ok(m2) ==> m2.lines.len() >= m.lines.len() && m2.lines.take(
            m.lines.len() as int,
        ) == m.lines,
    decreases files.len(),
{
    if files.len() > 0 {
        lemma_run_files_appends(m, files.drop_last());
        if let Ok(m1) = run_files(m, files.drop_last()) {
            let mf = WriterModel { file: files.last().0, ..m1 };
            lemma_run_lines_appends(mf, files.last().1);
            if let Ok(m2) = run_lines(mf, files.last().1) {
                assert(m2.lines.take(m.lines.len() as int) =~= m2.lines.take(m1.lines.len() as int).take(
                    m.lines.len() as int,
                ));
            }
        }
    }
}

/// Every translated program starts with the bootstrap (the stack pointer
/// set to 256 and the shared routines) and the call of `Sys.init`.
pub proof fn lemma_translation_starts_with_bootstrap(files: Seq<(Seq<char>, Seq<Seq<char>>)>)
    ensures
        translation(files) matches Ok(ls) ==> ls.take(
            (listing(bootstrap_ins()) + listing(call_ins("Sys.init"@, 0, "RTRN_CALL"@ + decimal(0)))).len() as int,
        ) == listing(bootstrap_ins()) + listing(call_ins("Sys.init"@, 0, "RTRN_CALL"@ + decimal(0))),
{
    let m0 = init_step(fresh_writer());
    assert(m0.lines =~= listing(bootstrap_ins()) + listing(call_ins("Sys.init"@, 0, "RTRN_CALL"@ + decimal(0))));
    lemma_run_files_appends(m0, files);
}

/// A line that holds only white space or a comment writes nothing.
pub proof fn lemma_blank_line_writes_nothing(m: WriterModel, lines: Seq<Seq<char>>, l: Seq<char>)
    requires
        line_command(l) is None,
    ensures
        run_lines(m, lines.push(l)) == run_lines(m, lines),
{
    assert(lines.push(l).drop_last() =~= lines);
}

/// Translates a whole program, given as its files (stem and lines), into
/// assembly lines: the bootstrap first, then each file in order. On an
/// error, the index of the file and the error.
pub fn translate_program(files: &Vec<(String, Vec<String>)>) -> (r: Result<
    Vec<String>,
    (usize, TranslateError),
>)
    requires
        total_lines(file_views(files@)) < 0xffff_0000,
    ensures
        match r {
            Ok(out) => translation(file_views(files@)) == Ok::<Seq<Seq<char>>, (int, ErrorModel)>(
                out@.map_values(|s: String| s@),
            ),
            Err((k, e)) => translation(file_views(files@)) == Err::<
                Seq<Seq<char>>,
                (int, ErrorModel),
            >((k as int, e@)),
        },
        all_ascii_files(file_views(files@)) ==> match r {
            Ok(out) => ascii_translation(file_views(files@)) == Ok::<
                Seq<Seq<char>>,
                (int, ErrorModel),
            >(out@.map_values(|s: String| s@)),
            Err((k, e)) => ascii_translation(file_views(files@)) == Err::<
                Seq<Seq<char>>,
                (int, ErrorModel),
            >((k as int, e@)),
        },
{
    let ghost fv = file_views(files@);
    let mut writer = CodeWriter::new();
    writer.init();
    let ghost m0 = writer@;
    assert(label_count(m0.labels, "COMP_RTRN"@) <= 1 && label_count(m0.labels, "RTRN_CALL"@) <= 1)
        by {
        assert(fresh_writer().labels == Map::<Seq<char>, u32>::empty());
    }
    let mut k: usize = 0;
    assert(fv.take(0) =~= Seq::<(Seq<char>, Seq<Seq<char>>)>::empty());
    while k < files.len()
        invariant
            k <= files@.len(),
            fv == file_views(files@),
            total_lines(fv) < 0xffff_0000,
            m0 == init_step(fresh_writer()),
            label_count(m0.labels, "COMP_RTRN"@) <= 1,
            label_count(m0.labels, "RTRN_CALL"@) <= 1,
            writer.wf(),
            run_files(m0, fv.take(k as int)) == Ok::<WriterModel, (int, ErrorModel)>(writer@),
            all_ascii_files(fv) ==> run_files_by(m0, fv.take(k as int), true) == Ok::<
                WriterModel,
                (int, ErrorModel),
            >(writer@),
        decreases files@.len() - k,
    {
        let ghost t = fv.take(k + 1);
        assert(t.drop_last() =~= fv.take(k as int));
        assert(t.last() == fv[k as int]);
        assert(fv[k as int] == (files@[k as int].0@, files@[k as int].1@.map_values(
            |s: String| s@,
        )));
        proof {
            lemma_run_files_counts(m0, fv.take(k as int));
            lemma_total_lines_prefix(fv, k as int);
            lemma_run_files_prefix_err(m0, fv, (k + 1) as int, false);
            lemma_run_files_prefix_err(m0, fv, (k + 1) as int, true);
            if all_ascii_files(fv) {
                assert(all_ascii(fv[k as int].1));
            }
        }
        match translate_file(&mut writer, files[k].0.as_str(), &files[k].1) {
            Ok(()) => {},
            Err(e) => {
                return Err((k, e));
            },
        }
        k = k + 1;
    }
    assert(fv.take(files@.len() as int) =~= fv);
    let out = writer.lines().clone();
    Ok(out)
}

} // verus!
