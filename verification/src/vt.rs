//! The actions that a VT parser reports for a stream of bytes, as values.

use vstd::prelude::*;

verus! {

/// One action of the parser that the terminal and the line editor act on.
#[derive(Debug, PartialEq, Eq)]
pub enum VtEvent {
    /// A character to show.
    Print(char),
    /// A control byte.
    Execute(u8),
    /// A control sequence: the first value of each of its parameters, and its
    /// final character.
    Csi { params: Vec<u16>, action: char },
}

/// An action of the parser as contracts see it.
pub enum VtEventView {
    Print(char),
    Execute(u8),
    Csi { params: Seq<u16>, action: char },
}

impl View for VtEvent {
    type V = VtEventView;

    open spec fn view(&self) -> VtEventView {
        match self {
            VtEvent::Print(c) => VtEventView::Print(*c),
            VtEvent::Execute(byte) => VtEventView::Execute(*byte),
            VtEvent::Csi { params, action } => VtEventView::Csi {
                params: params@,
                action: *action,
            },
        }
    }
}

/// A run of actions as contracts see it.
pub open spec fn events_view(events: Seq<VtEvent>) -> Seq<VtEventView> {
    Seq::new(events.len(), |i: int| events[i]@)
}

/// Collects the parser's actions in the order in which they arrive.
pub struct EventLog {
    pub events: Vec<VtEvent>,
}

/// `Parser` of the vte crate. Nothing inside it is seen here.
#[verifier::external_type_specification]
#[verifier::external_body]
pub struct ExParser<const N: usize>(vte::Parser<N>);

/// `Params` of the vte crate. Nothing inside it is seen here.
#[verifier::external_type_specification]
#[verifier::external_body]
pub struct ExParams(vte::Params);

/// What a list of parameters holds: the first value of each parameter, in
/// the order of the parameters.
pub uninterp spec fn param_firsts(params: vte::Params) -> Seq<u16>;

/// `Params::iter` of the vte crate, with the first value of each parameter
/// copied out. The parser gives every parameter at least one value.
#[verifier::external_body]
fn param_values(params: &vte::Params) -> (values: Vec<u16>)
    ensures
        values@ == param_firsts(*params),
{
    params.iter().map(|p| p[0]).collect()
}

impl EventLog {
    /// The actions collected so far, as contracts see them.
    pub open spec fn actions(&self) -> Seq<VtEventView> {
        events_view(self.events@)
    }
}

impl vte::Perform for EventLog {
    /// Notes a character to show, behind the actions noted before.
    fn print(&mut self, c: char)
        ensures
            final(self).actions() == old(self).actions().push(VtEventView::Print(c)),
    {
        self.events.push(VtEvent::Print(c));
        assert(self.actions() =~= old(self).actions().push(VtEventView::Print(c)));
    }

    /// Notes a control byte, behind the actions noted before.
    fn execute(&mut self, byte: u8)
        ensures
            final(self).actions() == old(self).actions().push(VtEventView::Execute(byte)),
    {
        self.events.push(VtEvent::Execute(byte));
        assert(self.actions() =~= old(self).actions().push(VtEventView::Execute(byte)));
    }

    /// Notes a control sequence by the first value of each of its
    /// parameters and its final character, behind the actions noted before.
    fn csi_dispatch(
        &mut self,
        params: &vte::Params,
        _intermediates: &[u8],
        _ignore: bool,
        action: char,
    )
        ensures
            final(self).actions() == old(self).actions().push(
                VtEventView::Csi { params: param_firsts(*params), action },
            ),
    {
        let values = param_values(params);
        self.events.push(VtEvent::Csi { params: values, action });
        assert(self.actions() =~= old(self).actions().push(
            VtEventView::Csi { params: param_firsts(*params), action },
        ));
    }
}

/// The actions that a parser reports when it is fed `bytes`, given what it
/// has been fed before.
pub uninterp spec fn vt_step(parser: vte::Parser, bytes: Seq<u8>) -> Seq<VtEventView>;

/// Whether a parser is as `Parser::new` makes it: whatever it is fed, it
/// reports what a parser in its ground state reports.
pub open spec fn is_fresh(parser: vte::Parser) -> bool {
    forall|bytes: Seq<u8>| #[trigger] vt_step(parser, bytes) == vt_events(bytes)
}

/// `Parser::new` of the vte crate: a parser in its ground state.
#[verifier::external_body]
pub(crate) fn new_parser() -> (parser: vte::Parser)
    ensures
        is_fresh(parser),
{
    vte::Parser::new()
}

/// `Parser::advance` of the vte crate, with the actions collected. What
/// comes out is decided by the parser as it stands and the bytes.
#[verifier::external_body]
pub(crate) fn advance(parser: &mut vte::Parser, bytes: &[u8]) -> (events: Vec<VtEvent>)
    ensures
        events_view(events@) == vt_step(*old(parser), bytes@),
{
    let mut log = EventLog { events: Vec::new() };
    parser.advance(&mut log, bytes);
    log.events
}

/// The actions that a parser in its ground state reports for `bytes`.
pub uninterp spec fn vt_events(bytes: Seq<u8>) -> Seq<VtEventView>;

/// `Parser::advance` on a fresh parser of the vte crate, with the actions
/// collected.
#[verifier::external_body]
pub(crate) fn parse(bytes: &[u8]) -> (events: Vec<VtEvent>)
    ensures
        events_view(events@) == vt_events(bytes@),
{
    let mut parser = vte::Parser::new();
    let mut log = EventLog { events: Vec::new() };
    parser.advance(&mut log, bytes);
    log.events
}

} // verus!
