//! Log messages and their routing.
//!
//! A [`Printer`] either emits each message immediately as a "kind:body"
//! line for standard error, or collects messages so the caller can dump
//! them all at the end in a structured form.  `print` lets a message be
//! restricted to one printer kind, so more detail can go to the
//! structured output than to the terminal.  The printer itself performs
//! no output: in `Stderr` mode it hands the rendered line back to the
//! caller, who writes it.

use vstd::prelude::*;
use vstd::string::*;

verus! {

/// How messages are routed.
#[derive(Debug, Clone, Copy, PartialEq, Eq, Structural)]
pub enum PrinterType {
    /// Render each message at once as a line for standard error.
    Stderr,
    /// Collect messages for one structured dump at the end.
    Json,
}

/// One log message: what kind of message it is, and its text.
pub struct Message {
    pub kind: String,
    pub body: String,
}

impl Message {
    /// A message with the given kind and text.
    pub fn new(kind: &str, body: &str) -> (m: Message)
        ensures
            m.kind@ == kind@,
            m.body@ == body@,
    {
        Message { kind: kind.to_owned(), body: body.to_owned() }
    }

    /// The message rendered as one line: kind, delimiter, body.
    fn intersperse(&self, delim: &str) -> (r: String)
        ensures
            r@ == self.kind@ + delim@ + self.body@,
    {
        let mut r = self.kind.clone();
        r.append(delim);
        r.append(self.body.as_str());
        r
    }
}

/// Whether a message restricted to `only` passes a printer of type `pt`.
pub open spec fn spec_allowed(pt: PrinterType, only: Option<PrinterType>) -> bool {
    match only {
        Some(q) => pt == q,
        None => true,
    }
}

/// Routes log messages by [`PrinterType`].
pub struct Printer {
    pub printer_type: PrinterType,
    pub messages: Vec<Message>,
}

impl Printer {
    /// A printer of the given type with no messages collected yet.
    pub fn new(printer_type: PrinterType) -> (p: Printer)
        ensures
            p.printer_type == printer_type,
            p.messages@.len() == 0,
    {
        Printer { printer_type, messages: Vec::new() }
    }

    /// Routes one message, optionally restricted to printers of type
    /// `only`.  A passing message is collected in `Json` mode; in
    /// `Stderr` mode it is rendered as a "kind:body" line and handed
    /// back for the caller to write.  A filtered-out message leaves the
    /// printer unchanged and yields nothing.
    pub fn print(&mut self, message: Message, only: Option<PrinterType>) -> (emitted: Option<
        String,
    >)
        ensures
            final(self).printer_type == old(self).printer_type,
            !spec_allowed(old(self).printer_type, only) ==> final(self).messages@ == old(self).messages@
                && emitted is None,
            spec_allowed(old(self).printer_type, only) && old(self).printer_type is Json
                ==> final(self).messages@ == old(self).messages@.push(message) && emitted is None,
            spec_allowed(old(self).printer_type, only) && old(self).printer_type is Stderr
                ==> final(self).messages@ == old(self).messages@ && (emitted matches Some(line)
                && line@ == message.kind@ + ":"@ + message.body@),
    {
        let allowed = match only {
            Some(ptype) => self.printer_type == ptype,
            None => true,
        };
        if allowed {
            match self.printer_type {
                PrinterType::Stderr => Some(message.intersperse(":")),
                PrinterType::Json => {
                    self.messages.push(message);
                    None
                },
            }
        } else {
            None
        }
    }

    /// Shorthand for `print` with no restriction: routes the message
    /// built from the given kind and body to every printer type.
    pub fn echo(&mut self, kind: &str, body: &str) -> (emitted: Option<String>)
        ensures
            final(self).printer_type == old(self).printer_type,
            old(self).printer_type is Json ==> emitted is None
                && final(self).messages@.len() == old(self).messages@.len() + 1
                && final(self).messages@.last().kind@ == kind@
                && final(self).messages@.last().body@ == body@
                && final(self).messages@.drop_last() == old(self).messages@,
            old(self).printer_type is Stderr ==> final(self).messages@ == old(self).messages@
                && (emitted matches Some(line) && line@ == kind@ + ":"@ + body@),
    {
        let m = Message::new(kind, body);
        let r = self.print(m, None);
        proof {
            if old(self).printer_type is Json {
                assert(self.messages@.drop_last() =~= old(self).messages@);
            }
        }
        r
    }
}

} // verus!
