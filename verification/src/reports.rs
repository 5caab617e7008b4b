//! What the state machine of `vte` reports for a byte stream: printable
//! characters and control sequences, in the order of the bytes.

use vstd::prelude::*;
use vstd::slice::slice_to_vec;

verus! {

/// One call of the state machine, with what the call receives.
#[derive(Debug, Clone, PartialEq, Eq)]
pub enum Report {
    /// A printable character.
    Print(char),
    /// A C0 or C1 control.
    Execute(u8),
    /// The start of a device control string.
    Hook { params: Vec<i64>, intermediates: Vec<u8>, ignore: bool, action: char },
    /// A byte of a device control string.
    Put(u8),
    /// The end of a device control string.
    Unhook,
    /// An operating system command.
    Osc { parts: Vec<Vec<u8>>, bell_terminated: bool },
    /// A CSI sequence with its parameters and its final character.
    Csi { params: Vec<i64>, intermediates: Vec<u8>, ignore: bool, action: char },
    /// An escape sequence.
    Esc { intermediates: Vec<u8>, ignore: bool, byte: u8 },
}

/// The mathematical content of a report.
pub enum ReportView {
    Print(char),
    Execute(u8),
    Hook { params: Seq<i64>, intermediates: Seq<u8>, ignore: bool, action: char },
    Put(u8),
    Unhook,
    Osc { parts: Seq<Seq<u8>>, bell_terminated: bool },
    Csi { params: Seq<i64>, intermediates: Seq<u8>, ignore: bool, action: char },
    Esc { intermediates: Seq<u8>, ignore: bool, byte: u8 },
}

/// The contents of the parts of an operating system command.
pub open spec fn part_views(parts: Seq<Vec<u8>>) -> Seq<Seq<u8>> {
    Seq::new(parts.len(), |i: int| parts[i]@)
}

impl View for Report {
    type V = ReportView;

    open spec fn view(&self) -> ReportView {
        match *self {
            Report::Print(c) => ReportView::Print(c),
            Report::Execute(byte) => ReportView::Execute(byte),
            Report::Hook { params, intermediates, ignore, action } => ReportView::Hook {
                params: params@,
                intermediates: intermediates@,
                ignore,
                action,
            },
            Report::Put(byte) => ReportView::Put(byte),
            Report::Unhook => ReportView::Unhook,
            Report::Osc { parts, bell_terminated } => ReportView::Osc {
                parts: part_views(parts@),
                bell_terminated,
            },
            Report::Csi { params, intermediates, ignore, action } => ReportView::Csi {
                params: params@,
                intermediates: intermediates@,
                ignore,
                action,
            },
            Report::Esc { intermediates, ignore, byte } => ReportView::Esc {
                intermediates: intermediates@,
                ignore,
                byte,
            },
        }
    }
}

/// The contents of a list of reports, in its order.
pub open spec fn report_views(reports: Seq<Report>) -> Seq<ReportView> {
    Seq::new(reports.len(), |i: int| reports[i]@)
}

/// The contents of the byte strings of a list, in its order.
pub open spec fn slice_views(parts: Seq<&[u8]>) -> Seq<Seq<u8>> {
    Seq::new(parts.len(), |i: int| parts[i]@)
}

fn copy_parts(parts: &[&[u8]]) -> (copies: Vec<Vec<u8>>)
    ensures
        part_views(copies@) == slice_views(parts@),
{
    let mut copies: Vec<Vec<u8>> = Vec::new();
    let mut i: usize = 0;
    while i < parts.len()
        invariant
            i <= parts.len(),
            copies@.len() == i,
            forall|k: int| 0 <= k < i ==> (#[trigger] copies@[k])@ == parts@[k]@,
        decreases parts.len() - i,
    {
        copies.push(slice_to_vec(parts[i]));
        i += 1;
    }
    assert(part_views(copies@) =~= slice_views(parts@));
    copies
}

/// Keeps every call of the state machine as a report, in the order of the
/// calls.
#[derive(Debug, Default)]
pub struct Recorder {
    pub reports: Vec<Report>,
}

impl Recorder {
    fn record(&mut self, report: Report)
        ensures
            report_views(final(self).reports@) == report_views(old(self).reports@).push(report@),
    {
        self.reports.push(report);
        assert(report_views(self.reports@) =~= report_views(old(self).reports@).push(report@));
    }
}

impl vte::Perform for Recorder {
    fn print(&mut self, c: char)
        ensures
            report_views(final(self).reports@) == report_views(old(self).reports@).push(
                ReportView::Print(c),
            ),
    {
        self.record(Report::Print(c));
    }

    fn execute(&mut self, byte: u8)
        ensures
            report_views(final(self).reports@) == report_views(old(self).reports@).push(
                ReportView::Execute(byte),
            ),
    {
        self.record(Report::Execute(byte));
    }

    fn hook(&mut self, params: &[i64], intermediates: &[u8], ignore: bool, action: char)
        ensures
            report_views(final(self).reports@) == report_views(old(self).reports@).push(
                ReportView::Hook {
                    params: params@,
                    intermediates: intermediates@,
                    ignore,
                    action,
                },
            ),
    {
        self.record(
            Report::Hook {
                params: slice_to_vec(params),
                intermediates: slice_to_vec(intermediates),
                ignore,
                action,
            },
        );
    }

    fn put(&mut self, byte: u8)
        ensures
            report_views(final(self).reports@) == report_views(old(self).reports@).push(
                ReportView::Put(byte),
            ),
    {
        self.record(Report::Put(byte));
    }

    fn unhook(&mut self)
        ensures
            report_views(final(self).reports@) == report_views(old(self).reports@).push(
                ReportView::Unhook,
            ),
    {
        self.record(Report::Unhook);
    }

    fn osc_dispatch(&mut self, params: &[&[u8]], bell_terminated: bool)
        ensures
            report_views(final(self).reports@) == report_views(old(self).reports@).push(
                ReportView::Osc { parts: slice_views(params@), bell_terminated },
            ),
    {
        self.record(Report::Osc { parts: copy_parts(params), bell_terminated });
    }

    fn csi_dispatch(&mut self, params: &[i64], intermediates: &[u8], ignore: bool, action: char)
        ensures
            report_views(final(self).reports@) == report_views(old(self).reports@).push(
                ReportView::Csi {
                    params: params@,
                    intermediates: intermediates@,
                    ignore,
                    action,
                },
            ),
    {
        self.record(
            Report::Csi {
                params: slice_to_vec(params),
                intermediates: slice_to_vec(intermediates),
                ignore,
                action,
            },
        );
    }

    fn esc_dispatch(&mut self, intermediates: &[u8], ignore: bool, byte: u8)
        ensures
            report_views(final(self).reports@) == report_views(old(self).reports@).push(
                ReportView::Esc { intermediates: intermediates@, ignore, byte },
            ),
    {
        self.record(Report::Esc { intermediates: slice_to_vec(intermediates), ignore, byte });
    }
}

/// The calls that the state machine of `vte` makes, in their order, when it
/// starts in its initial state and is fed `input` byte by byte.
pub uninterp spec fn vte_reports(input: Seq<u8>) -> Seq<ReportView>;

/// `vte::Parser::new` and `vte::Parser::advance`: a state machine in its
/// initial state is fed the bytes of `input` in their order, and every call
/// that it makes is kept by a `Recorder`. The state machine holds no state
/// but what the bytes fed to it leave, so the reports are a function of
/// `input` alone. Without a byte it makes no call.
#[verifier::external_body]
pub(crate) fn reports_of(input: &[u8]) -> (reports: Vec<Report>)
    ensures
        report_views(reports@) == vte_reports(input@),
        input@.len() == 0 ==> reports@.len() == 0,
{
    let mut machine = vte::Parser::new();
    let mut recorder = Recorder { reports: Vec::new() };
    for byte in input {
        machine.advance(&mut recorder, *byte);
    }
    recorder.reports
}

} // verus!
