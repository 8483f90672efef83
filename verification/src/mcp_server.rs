//! The MCP server's own decisions: one tool per contact and channel, and
//! nothing else. There is deliberately no generic "send to any address"
//! tool: neither the address nor the channel is a parameter, both are fixed
//! by the tool's name.
use vstd::prelude::*;

use crate::config::ChannelTool;
use crate::text::{contains_seq, lemma_redacted_free, lemma_redacted_unchanged, push_str, redact, redacted, str_eq};

verus! {

/// The configured tools; the senders that carry them out live with the
/// transport.
pub struct SendMailServer {
    pub tools: Vec<ChannelTool>,
}

/// A tool as the tool list presents it.
#[derive(Debug)]
pub struct ListedTool {
    pub name: String,
    pub title: String,
    pub description: String,
}

/// `Sende eine Nachricht an <contact> über <channel>.`
pub open spec fn description_text(contact: Seq<char>, display: Seq<char>) -> Seq<char> {
    "Sende eine Nachricht an "@ + contact + " über "@ + display + "."@
}

/// Why a tool call was refused before anything was sent.
#[derive(Debug)]
pub enum CallError {
    UnknownTool { name: String },
    MissingSubject,
    MissingBody,
}

pub open spec fn call_error_text(e: CallError) -> Seq<char> {
    match e {
        CallError::UnknownTool { name } => "unbekanntes Tool: "@ + name@,
        CallError::MissingSubject => "Parameter 'subject' fehlt"@,
        CallError::MissingBody => "Parameter 'body' fehlt"@,
    }
}

impl CallError {
    pub fn message(&self) -> (r: String)
        ensures
            r@ == call_error_text(*self),
    {
        let mut r = String::new();
        match self {
            CallError::UnknownTool { name } => {
                push_str(&mut r, "unbekanntes Tool: ");
                push_str(&mut r, name.as_str());
            },
            CallError::MissingSubject => push_str(&mut r, "Parameter 'subject' fehlt"),
            CallError::MissingBody => push_str(&mut r, "Parameter 'body' fehlt"),
        }
        r
    }
}

/// The outcome of a send, as the tool call reports it.
pub open spec fn call_report_text(contact: Seq<char>, failure: Option<Seq<char>>) -> Seq<char> {
    match failure {
        None => "Nachricht an "@ + contact + " wurde verschickt."@,
        Some(f) => "Versand an "@ + contact + " fehlgeschlagen: "@ + f,
    }
}

impl SendMailServer {
    pub fn new(tools: Vec<ChannelTool>) -> (s: SendMailServer)
        ensures
            s.tools@ == tools@,
    {
        SendMailServer { tools }
    }

    /// The first tool named `tool_name`, if any.
    pub fn find(&self, tool_name: &str) -> (r: Option<&ChannelTool>)
        ensures
            match r {
                Some(t) => exists|i: int|
                    0 <= i < self.tools@.len() && self.tools@[i] == *t && t.tool_name@
                        == tool_name@ && forall|k: int|
                        0 <= k < i ==> (#[trigger] self.tools@[k]).tool_name@ != tool_name@,
                None => forall|i: int|
                    0 <= i < self.tools@.len() ==> (#[trigger] self.tools@[i]).tool_name@
                        != tool_name@,
            },
    {
        let mut i: usize = 0;
        while i < self.tools.len()
            invariant
                i <= self.tools.len(),
                forall|k: int| 0 <= k < i ==> (#[trigger] self.tools@[k]).tool_name@ != tool_name@,
            decreases self.tools.len() - i,
        {
            if str_eq(self.tools[i].tool_name.as_str(), tool_name) {
                return Some(&self.tools[i]);
            }
            i += 1;
        }
        None
    }

    /// The tool list: for every tool its name, its title and
    /// "Sende eine Nachricht an <contact> über <channel>."
    pub fn list_tools(&self) -> (r: Vec<ListedTool>)
        ensures
            r@.len() == self.tools@.len(),
            forall|i: int|
                0 <= i < r@.len() ==> {
                    let t = self.tools@[i];
                    &&& (#[trigger] r@[i]).name@ == t.tool_name@
                    &&& r@[i].title@ == t.title@
                    &&& r@[i].description@ == description_text(
                        t.contact_name@,
                        t.channel_display_name@,
                    )
                },
    {
        let mut r: Vec<ListedTool> = Vec::new();
        let mut i: usize = 0;
        while i < self.tools.len()
            invariant
                i <= self.tools.len(),
                r@.len() == i,
                forall|k: int|
                    0 <= k < i ==> {
                        let t = self.tools@[k];
                        &&& (#[trigger] r@[k]).name@ == t.tool_name@
                        &&& r@[k].title@ == t.title@
                        &&& r@[k].description@ == description_text(
                            t.contact_name@,
                            t.channel_display_name@,
                        )
                    },
            decreases self.tools.len() - i,
        {
            let t = &self.tools[i];
            let mut description = String::new();
            push_str(&mut description, "Sende eine Nachricht an ");
            push_str(&mut description, t.contact_name.as_str());
            push_str(&mut description, " über ");
            push_str(&mut description, t.channel_display_name);
            push_str(&mut description, ".");
            r.push(
                ListedTool { name: t.tool_name.clone(), title: t.title.clone(), description },
            );
            i += 1;
        }
        r
    }

    /// Checks a tool call before sending: the tool must exist, and `subject`
    /// and `body` must be given as text, checked in this order.
    pub fn prepare_call<'a>(
        &'a self,
        tool_name: &str,
        subject: Option<&str>,
        body: Option<&str>,
    ) -> (r: Result<&'a ChannelTool, CallError>)
        ensures
            match r {
                Ok(t) => exists|i: int|
                    0 <= i < self.tools@.len() && self.tools@[i] == *t && t.tool_name@
                        == tool_name@ && forall|k: int|
                        0 <= k < i ==> (#[trigger] self.tools@[k]).tool_name@ != tool_name@,
                Err(CallError::UnknownTool { name }) => name@ == tool_name@ && forall|i: int|
                    0 <= i < self.tools@.len() ==> (#[trigger] self.tools@[i]).tool_name@
                        != tool_name@,
                Err(CallError::MissingSubject) => subject is None && exists|i: int|
                    0 <= i < self.tools@.len() && (#[trigger] self.tools@[i]).tool_name@
                        == tool_name@,
                Err(CallError::MissingBody) => subject is Some && body is None && exists|i: int|
                    0 <= i < self.tools@.len() && (#[trigger] self.tools@[i]).tool_name@
                        == tool_name@,
            },
            r is Ok ==> subject is Some && body is Some,
    {
        let tool = match self.find(tool_name) {
            Some(t) => t,
            None => {
                return Err(CallError::UnknownTool { name: tool_name.to_owned() });
            },
        };
        if subject.is_none() {
            return Err(CallError::MissingSubject);
        }
        if body.is_none() {
            return Err(CallError::MissingBody);
        }
        Ok(tool)
    }

    /// The text that a tool call reports after sending: success, or the
    /// failure with the sender's report. The flag says whether it is an
    /// error. The agent sees the contact's name and never the address: the
    /// address is cut out of the text wherever it occurs (a sender's report,
    /// such as an SMTP server's answer, may quote it); text without the
    /// address is passed on unchanged.
    pub fn call_report(tool: &ChannelTool, failure: Option<&str>) -> (r: (bool, String))
        ensures
            ({
                let text = call_report_text(
                    tool.contact_name@,
                    match failure {
                        Some(f) => Some(f@),
                        None => None,
                    },
                );
                &&& r.0 == failure is Some
                &&& r.1@ == redacted(text, tool.address@)
                &&& tool.address@.len() > 0 ==> !contains_seq(r.1@, tool.address@)
                &&& !contains_seq(text, tool.address@) ==> r.1@ == text
            }),
    {
        let mut text = String::new();
        let is_error = match failure {
            None => {
                push_str(&mut text, "Nachricht an ");
                push_str(&mut text, tool.contact_name.as_str());
                push_str(&mut text, " wurde verschickt.");
                false
            },
            Some(f) => {
                push_str(&mut text, "Versand an ");
                push_str(&mut text, tool.contact_name.as_str());
                push_str(&mut text, " fehlgeschlagen: ");
                push_str(&mut text, f);
                true
            },
        };
        let shown = redact(text.as_str(), tool.address.as_str());
        proof {
            if tool.address@.len() > 0 {
                lemma_redacted_free(text@, tool.address@);
            }
            if !contains_seq(text@, tool.address@) {
                lemma_redacted_unchanged(text@, tool.address@);
            }
        }
        (is_error, shown)
    }
}

} // verus!
