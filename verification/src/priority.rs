//! The HTTP-style stream priority: an urgency of 0 to 7 and an incremental
//! flag, carried as a structured-field dictionary with keys `u` and `i`.
//! The handler tracks the last priority told to the peer and asks for a
//! priority-update frame only when it is out of date.

use vstd::prelude::*;

use crate::streams::StreamId;
use crate::{Error, Res};

verus! {

/// A stream's priority.  The default is urgency 3, not incremental.
#[derive(Debug, Copy, Clone, PartialEq, Eq, Structural)]
pub struct Priority {
    pub urgency: u8,
    pub incremental: bool,
}

impl Default for Priority {
    fn default() -> (r: Priority)
        ensures
            r == (Priority { urgency: 3, incremental: false }),
    {
        Priority { urgency: 3, incremental: false }
    }
}

/// An HTTP header: a field name and its serialized value.
#[derive(Debug, Clone)]
pub struct Header {
    pub name: String,
    pub value: String,
}

impl Header {
    pub fn new(name: String, value: String) -> (r: Header)
        ensures
            r.name@ == name@,
            r.value@ == value@,
    {
        Header { name, value }
    }

    pub fn name(&self) -> (r: &String)
        ensures
            r@ == self.name@,
    {
        &self.name
    }

    pub fn value(&self) -> (r: &String)
        ensures
            r@ == self.value@,
    {
        &self.value
    }
}

/// The serialized field value of a priority: nothing for the default, `i`
/// when only incremental, `u=N` when only the urgency differs, else both.
pub open spec fn spec_priority_field_value(p: Priority) -> Seq<char> {
    if p.incremental {
        if p.urgency == 0 {
            "u=0,i"@
        } else if p.urgency == 1 {
            "u=1,i"@
        } else if p.urgency == 2 {
            "u=2,i"@
        } else if p.urgency == 3 {
            "i"@
        } else if p.urgency == 4 {
            "u=4,i"@
        } else if p.urgency == 5 {
            "u=5,i"@
        } else if p.urgency == 6 {
            "u=6,i"@
        } else {
            "u=7,i"@
        }
    } else {
        if p.urgency == 0 {
            "u=0"@
        } else if p.urgency == 1 {
            "u=1"@
        } else if p.urgency == 2 {
            "u=2"@
        } else if p.urgency == 3 {
            ""@
        } else if p.urgency == 4 {
            "u=4"@
        } else if p.urgency == 5 {
            "u=5"@
        } else if p.urgency == 6 {
            "u=6"@
        } else {
            "u=7"@
        }
    }
}

impl Priority {
    /// A priority with the given urgency, which must be at most 7.
    pub fn new(urgency: u8, incremental: bool) -> (r: Priority)
        requires
            urgency < 8,
        ensures
            r == (Priority { urgency, incremental }),
    {
        Priority { urgency, incremental }
    }

    /// The serialized field value of this priority.
    pub fn field_value(&self) -> (r: String)
        requires
            self.urgency < 8,
        ensures
            r@ == spec_priority_field_value(*self),
    {
        if self.incremental {
            if self.urgency == 0 {
                "u=0,i".to_owned()
            } else if self.urgency == 1 {
                "u=1,i".to_owned()
            } else if self.urgency == 2 {
                "u=2,i".to_owned()
            } else if self.urgency == 3 {
                "i".to_owned()
            } else if self.urgency == 4 {
                "u=4,i".to_owned()
            } else if self.urgency == 5 {
                "u=5,i".to_owned()
            } else if self.urgency == 6 {
                "u=6,i".to_owned()
            } else {
                "u=7,i".to_owned()
            }
        } else {
            if self.urgency == 0 {
                "u=0".to_owned()
            } else if self.urgency == 1 {
                "u=1".to_owned()
            } else if self.urgency == 2 {
                "u=2".to_owned()
            } else if self.urgency == 3 {
                "".to_owned()
            } else if self.urgency == 4 {
                "u=4".to_owned()
            } else if self.urgency == 5 {
                "u=5".to_owned()
            } else if self.urgency == 6 {
                "u=6".to_owned()
            } else {
                "u=7".to_owned()
            }
        }
    }

    /// The priority header to send with a request, or nothing when the
    /// priority is the default and need not be sent.
    pub fn header(self) -> (r: Option<Header>)
        requires
            self.urgency < 8,
        ensures
            self == (Priority { urgency: 3, incremental: false }) <==> r is None,
            r matches Option::Some(h) ==> h.name@ == "priority"@ && h.value@
                == spec_priority_field_value(self),
    {
        if self.urgency == 3 && !self.incremental {
            Option::None
        } else {
            Option::Some(Header::new("priority".to_owned(), self.field_value()))
        }
    }

    /// Builds the priority that the parsed dictionary fields mean: an
    /// urgency outside 0 to 7, of the wrong type, or absent falls back to
    /// the default, and so does the incremental flag.
    pub fn from_fields(urgency: Option<i64>, incremental: Option<bool>) -> (r: Priority)
        ensures
            r == spec_priority_from_fields(urgency, incremental),
            r.urgency < 8,
    {
        let u: u8 = match urgency {
            Option::Some(v) => if 0 <= v && v <= 7 {
                v as u8
            } else {
                3
            },
            Option::None => 3,
        };
        let i: bool = match incremental {
            Option::Some(b) => b,
            Option::None => false,
        };
        Priority { urgency: u, incremental: i }
    }

    /// Parses a priority field value.  The bytes must be a structured-field
    /// dictionary; its `u` and `i` members, when integer and boolean, give
    /// the urgency and the incremental flag, and anything else falls back to
    /// the defaults.
    pub fn from_bytes(bytes: &[u8]) -> (r: Res<Priority>)
        ensures
            r == match parsed_priority_fields(bytes@) {
                Option::Some(f) => Res::<Priority>::Ok(spec_priority_from_fields(f.0, f.1)),
                Option::None => Res::<Priority>::Err(Error::HttpFrame),
            },
    {
        match parse_dictionary(bytes) {
            Option::Some(d) => {
                let u = dict_urgency(&d);
                let i = dict_incremental(&d);
                Ok(Priority::from_fields(u, i))
            },
            Option::None => Err(Error::HttpFrame),
        }
    }
}

/// What `from_fields` returns, as a mathematical function.
pub open spec fn spec_priority_from_fields(urgency: Option<i64>, incremental: Option<bool>) -> Priority {
    let u: u8 = match urgency {
        Option::Some(v) => if 0 <= v <= 7 {
            v as u8
        } else {
            3
        },
        Option::None => 3,
    };
    let i: bool = match incremental {
        Option::Some(b) => b,
        Option::None => false,
    };
    Priority { urgency: u, incremental: i }
}

/// Reading back the fields a priority serializes to gives that priority:
/// the field extraction inverts the field encoding.
pub proof fn lemma_priority_fields_round_trip(p: Priority)
    requires
        p.urgency < 8,
    ensures
        spec_priority_from_fields(
            Option::Some(p.urgency as i64),
            Option::Some(p.incremental),
        ) == p,
{
}

/// A field value with both members absent means the default priority.
pub proof fn lemma_priority_defaults()
    ensures
        spec_priority_from_fields(Option::None, Option::None) == (Priority {
            urgency: 3,
            incremental: false,
        }),
{
}

/// A parsed structured-field dictionary, held only to read its priority
/// members.
#[verifier::external_body]
pub struct PriorityDict {
    dict: sfv::Dictionary,
}

/// The `u` and `i` members of a parsed dictionary: the integer value of `u`
/// if `u` is a bare integer item, and the boolean value of `i` likewise.
pub uninterp spec fn dict_fields(d: PriorityDict) -> (Option<i64>, Option<bool>);

/// What parsing `bytes` as a structured-field dictionary yields: nothing
/// when the syntax is invalid, else the `u` and `i` members.  The result
/// depends on the bytes alone.
pub uninterp spec fn parsed_priority_fields(bytes: Seq<u8>) -> Option<(Option<i64>, Option<bool>)>;

/// Relies on sfv's `Parser::parse::<Dictionary>`: parses the structured-field
/// dictionary grammar, returning a dictionary exactly when the bytes conform.
#[verifier::external_body]
fn parse_dictionary(bytes: &[u8]) -> (r: Option<PriorityDict>)
    ensures
        r is Some <==> parsed_priority_fields(bytes@) is Some,
        r matches Option::Some(d) ==> parsed_priority_fields(bytes@) == Option::Some(
            dict_fields(d),
        ),
{
    match sfv::Parser::new(bytes).parse::<sfv::Dictionary>() {
        Ok(dict) => Some(PriorityDict { dict }),
        Err(_) => None,
    }
}

/// Relies on `IndexMap::get`: looks up the `u` member; a bare integer item
/// is handed out, anything else is not.
#[verifier::external_body]
fn dict_urgency(d: &PriorityDict) -> (r: Option<i64>)
    ensures
        r == dict_fields(*d).0,
{
    match d.dict.get("u") {
        Some(sfv::ListEntry::Item(item)) => match &item.bare_item {
            sfv::BareItem::Integer(v) => Some(i64::from(*v)),
            _ => None,
        },
        _ => None,
    }
}

/// Relies on `IndexMap::get`: looks up the `i` member; a bare boolean item
/// is handed out, anything else is not.
#[verifier::external_body]
fn dict_incremental(d: &PriorityDict) -> (r: Option<bool>)
    ensures
        r == dict_fields(*d).1,
{
    match d.dict.get("i") {
        Some(sfv::ListEntry::Item(item)) => match &item.bare_item {
            sfv::BareItem::Boolean(b) => Some(*b),
            _ => None,
        },
        _ => None,
    }
}

/// The priority-update frames of the HTTP layer.
#[derive(Debug, Clone, Copy, PartialEq, Eq, Structural)]
pub enum HFrame {
    PriorityUpdateRequest { element_id: u64, priority: Priority },
    PriorityUpdatePush { element_id: u64, priority: Priority },
}

/// Tracks a stream's priority and the last priority actually sent, and asks
/// for a priority-update frame exactly while they differ.
#[derive(Debug)]
pub struct PriorityHandler {
    push_stream: bool,
    priority: Priority,
    last_send_priority: Priority,
}

impl PriorityHandler {
    pub closed spec fn spec_priority(self) -> Priority {
        self.priority
    }

    pub closed spec fn spec_last_sent(self) -> Priority {
        self.last_send_priority
    }

    pub closed spec fn spec_push_stream(self) -> bool {
        self.push_stream
    }

    pub fn new(push_stream: bool, priority: Priority) -> (r: PriorityHandler)
        ensures
            r.spec_push_stream() == push_stream,
            r.spec_priority() == priority,
            r.spec_last_sent() == priority,
    {
        PriorityHandler { push_stream, priority, last_send_priority: priority }
    }

    /// Takes a new priority; returns whether it differs from the current
    /// one, in which case an update becomes outstanding.
    pub fn maybe_update_priority(&mut self, priority: Priority) -> (r: bool)
        ensures
            r == (priority != old(self).spec_priority()),
            final(self).spec_priority() == priority,
            final(self).spec_last_sent() == old(self).spec_last_sent(),
            final(self).spec_push_stream() == old(self).spec_push_stream(),
    {
        if priority == self.priority {
            false
        } else {
            self.priority = priority;
            true
        }
    }

    /// Records that the outstanding update went out.
    pub fn priority_update_sent(&mut self)
        ensures
            final(self).spec_last_sent() == old(self).spec_priority(),
            final(self).spec_priority() == old(self).spec_priority(),
            final(self).spec_push_stream() == old(self).spec_push_stream(),
    {
        self.last_send_priority = self.priority;
    }

    /// The update frame still owed to the peer: one exists exactly while the
    /// current priority differs from the last one sent, and it carries the
    /// current priority under this stream's element ID.
    pub fn maybe_encode_frame(&self, stream_id: StreamId) -> (r: Option<HFrame>)
        ensures
            r is Some <==> self.spec_priority() != self.spec_last_sent(),
            r == if self.spec_priority() == self.spec_last_sent() {
                Option::<HFrame>::None
            } else if self.spec_push_stream() {
                Option::Some(
                    (HFrame::PriorityUpdatePush {
                        element_id: stream_id.id,
                        priority: self.spec_priority(),
                    }),
                )
            } else {
                Option::Some(
                    (HFrame::PriorityUpdateRequest {
                        element_id: stream_id.id,
                        priority: self.spec_priority(),
                    }),
                )
            },
    {
        if self.priority == self.last_send_priority {
            Option::None
        } else if self.push_stream {
            Option::Some(
                HFrame::PriorityUpdatePush {
                    element_id: stream_id.as_u64(),
                    priority: self.priority,
                },
            )
        } else {
            Option::Some(
                HFrame::PriorityUpdateRequest {
                    element_id: stream_id.as_u64(),
                    priority: self.priority,
                },
            )
        }
    }
}

} // verus!
