//! The output of the child process, line by line.
use vstd::prelude::*;

verus! {

/// One line of the child's output: `stream` is `stdout` or `stderr`.
#[derive(Clone, Debug)]
pub struct KkafioOutputEvent {
    pub stream: String,
    pub line: String,
}

/// What an output event holds.
pub struct OutputView {
    pub stream: Seq<char>,
    pub line: Seq<char>,
}

impl View for KkafioOutputEvent {
    type V = OutputView;

    open spec fn view(&self) -> OutputView {
        OutputView { stream: self.stream@, line: self.line@ }
    }
}

/// The name under which output events are sent.
pub const OUTPUT_EVENT: &'static str = "kkafio-output";

/// The line that says that there is no more output to come.
pub const END_MARK: &'static str = "--------------------------------------------------------------------";

/// The event for a line of a stream.
pub fn emit_line(stream: &str, line: &str) -> (r: KkafioOutputEvent)
    ensures
        r@ == (OutputView { stream: stream@, line: line@ }),
        r.stream@ == stream@,
        r.line@ == line@,
{
    KkafioOutputEvent { stream: stream.to_owned(), line: line.to_owned() }
}

/// The streams of the child.
#[derive(Clone, Copy, Debug, PartialEq, Eq)]
pub enum Stream {
    Stdout,
    Stderr,
}

/// What reading the next line of a stream gave.
pub enum LineRead {
    Line(String),
    Failed,
    End,
}

/// What reading the next line of a stream gave, by its characters.
pub enum LineReadView {
    Line(Seq<char>),
    Failed,
    End,
}

impl View for LineRead {
    type V = LineReadView;

    open spec fn view(&self) -> LineReadView {
        match self {
            LineRead::Line(line) => LineReadView::Line(line@),
            LineRead::Failed => LineReadView::Failed,
            LineRead::End => LineReadView::End,
        }
    }
}

/// What a reader does about it: the event that it sends, if any, and whether it reads on.
pub struct ReaderStep {
    pub event: Option<KkafioOutputEvent>,
    pub reads_on: bool,
}

/// The name of a stream in its events.
pub open spec fn stream_name(stream: Stream) -> Seq<char> {
    match stream {
        Stream::Stdout => "stdout"@,
        Stream::Stderr => "stderr"@,
    }
}

/// The event that a reader sends.
pub open spec fn sent(stream: Stream, read: LineReadView) -> Option<OutputView> {
    match (stream, read) {
        (_, LineReadView::Line(line)) => Some(OutputView { stream: stream_name(stream), line }),
        (Stream::Stdout, _) => Some(OutputView { stream: "stdout"@, line: END_MARK@ }),
        (Stream::Stderr, _) => None,
    }
}

/// What the reader of a stream does about what it read. Every line of either stream is sent, and a
/// mark at the end of the standard output. A reader ends with its stream, or where that cannot
/// be read.
pub fn reader_step(stream: Stream, read: LineRead) -> (r: ReaderStep)
    ensures
        r.event is Some <==> sent(stream, read@) is Some,
        r.event matches Some(event) ==> Some(event@) == sent(stream, read@),
        r.reads_on == (read is Line),
        read matches LineRead::Line(line) ==> (r.event matches Some(event) && event.line@ == line@
            && event.stream@ == (match stream {
            Stream::Stdout => "stdout"@,
            Stream::Stderr => "stderr"@,
        })),
        !(read is Line) && stream is Stderr ==> r.event is None,
        !(read is Line) && stream is Stdout ==> (r.event matches Some(event) && event.stream@
            == "stdout"@ && event.line@ == END_MARK@),
{
    match (stream, read) {
        (Stream::Stdout, LineRead::Line(line)) => ReaderStep {
            event: Some(emit_line("stdout", line.as_str())),
            reads_on: true,
        },
        (Stream::Stdout, _) => ReaderStep {
            event: Some(emit_line("stdout", END_MARK)),
            reads_on: false,
        },
        (Stream::Stderr, LineRead::Line(line)) => ReaderStep {
            event: Some(emit_line("stderr", line.as_str())),
            reads_on: true,
        },
        (Stream::Stderr, _) => ReaderStep { event: None, reads_on: false },
    }
}

/// The events that the reader of a stream sends, given what its reads give in turn; it makes none
/// after one that gave no line.
pub open spec fn all_sent(stream: Stream, reads: Seq<LineReadView>) -> Seq<OutputView>
    decreases reads.len(),
{
    if reads.len() == 0 {
        Seq::empty()
    } else {
        let rest = if reads[0] is Line {
            all_sent(stream, reads.drop_first())
        } else {
            Seq::empty()
        };
        match sent(stream, reads[0]) {
            Some(event) => seq![event] + rest,
            None => rest,
        }
    }
}

/// The events for lines of a stream.
pub open spec fn line_events(stream: Stream, lines: Seq<Seq<char>>) -> Seq<OutputView> {
    lines.map_values(|line: Seq<char>| OutputView { stream: stream_name(stream), line })
}

/// Every line of either stream is sent, once, in order and as it is, blank or not. Behind those of the
/// standard output follows the mark, once and for all, however the stream ends; behind those of the
/// error output follows nothing.
pub proof fn law_every_line_is_sent(
    stream: Stream,
    lines: Seq<Seq<char>>,
    reads: Seq<LineReadView>,
)
    requires
        reads.len() > lines.len(),
        forall|i: int| 0 <= i < lines.len() ==> reads[i] == LineReadView::Line(lines[i]),
        !(reads[lines.len() as int] is Line),
    ensures
        all_sent(stream, reads) == (match stream {
            Stream::Stdout => line_events(stream, lines).push(
                OutputView { stream: "stdout"@, line: END_MARK@ },
            ),
            Stream::Stderr => line_events(stream, lines),
        }),
    decreases lines.len(),
{
    let end = OutputView { stream: "stdout"@, line: END_MARK@ };
    if lines.len() > 0 {
        let fewer = lines.drop_first();
        let later = reads.drop_first();
        assert forall|i: int| 0 <= i < fewer.len() implies later[i] == LineReadView::Line(
            fewer[i],
        ) by {
            assert(later[i] == reads[i + 1]);
        }
        assert(later[fewer.len() as int] == reads[lines.len() as int]);
        law_every_line_is_sent(stream, fewer, later);
        assert(reads[0] == LineReadView::Line(lines[0]));
        let first = OutputView { stream: stream_name(stream), line: lines[0] };
        assert(seq![first] + line_events(stream, fewer) =~= line_events(stream, lines));
        assert(seq![first] + line_events(stream, fewer).push(end) =~= line_events(
            stream,
            lines,
        ).push(end));
    } else {
        assert(line_events(stream, lines) =~= Seq::empty());
        assert(seq![end] + Seq::<OutputView>::empty() =~= Seq::empty().push(end));
    }
}

/// Every event names the standard output or the error output as its stream.
pub proof fn law_streams(stream: Stream, read: LineReadView)
    ensures
        sent(stream, read) matches Some(event) ==> event.stream == stream_name(stream),
{
}

/// A line is sent under the name of its stream, as it is, whatever it holds; what is no line is sent for
/// the standard output only, and then as the mark.
pub proof fn law_what_is_sent(stream: Stream, line: Seq<char>, read: LineReadView)
    ensures
        sent(Stream::Stdout, LineReadView::Line(line)) == Some(
            OutputView { stream: "stdout"@, line },
        ),
        sent(Stream::Stderr, LineReadView::Line(line)) == Some(
            OutputView { stream: "stderr"@, line },
        ),
        !(read is Line) ==> sent(Stream::Stderr, read) is None,
        !(read is Line) ==> sent(Stream::Stdout, read) == Some(
            OutputView { stream: "stdout"@, line: END_MARK@ },
        ),
{
}

/// One line more at the front of a stream is one event more at the front of what is sent, and changes
/// nothing else.
pub proof fn law_one_more_line(stream: Stream, line: Seq<char>, reads: Seq<LineReadView>)
    ensures
        all_sent(stream, seq![LineReadView::Line(line)] + reads) == seq![
            OutputView {
                stream: if stream is Stdout {
                    "stdout"@
                } else {
                    "stderr"@
                },
                line,
            },
        ] + all_sent(stream, reads),
{
    let all = seq![LineReadView::Line(line)] + reads;
    assert(all.drop_first() =~= reads);
}

/// The events for lines are as many as the lines, each with its line and the name of the stream.
pub proof fn law_line_events(stream: Stream, lines: Seq<Seq<char>>)
    ensures
        line_events(stream, lines).len() == lines.len(),
        forall|i: int|
            0 <= i < lines.len() ==> (#[trigger] line_events(stream, lines)[i]).line == lines[i]
                && line_events(stream, lines)[i].stream == (match stream {
                Stream::Stdout => "stdout"@,
                Stream::Stderr => "stderr"@,
            }),
{
}

/// An event is seen field by field, and a line that was read by its characters.
pub proof fn law_output_views(event: KkafioOutputEvent, read: LineRead)
    ensures
        event@.stream == event.stream@,
        event@.line == event.line@,
        read@ is Line <==> read is Line,
        read@ is Failed <==> read is Failed,
        read matches LineRead::Line(line) ==> read@ == LineReadView::Line(line@),
{
}

/// Output events go out under the name `kkafio-output`, and the mark at the end is a row of 68 hyphens.
pub proof fn law_names_of_the_output()
    ensures
        OUTPUT_EVENT@ == "kkafio-output"@,
        END_MARK@.len() == 68,
        forall|i: int| 0 <= i < 68 ==> #[trigger] END_MARK@[i] == '-',
{
    reveal_strlit("--------------------------------------------------------------------");
}

} // verus!
