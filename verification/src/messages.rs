use vstd::prelude::*;
use crate::datetime::{MsgDateTime, iso_text, is_valid_parts, local_now, timestamp_text};
use crate::text::{int_text, i32_text, read_int, lemma_int_text_round_trip};

verus! {

/// Message kind: unknown.
pub const SE_UNK: i32 = 0;
/// Message kind: server event.
pub const SE_SRV: i32 = 1;
/// Message kind: server state message.
pub const SM_SRV: i32 = 2;
/// Message kind: project event.
pub const SE_PRJ: i32 = 3;
/// Message kind: project log entry.
pub const LE_PRJ: i32 = 4;
/// Message kind: project alarm.
pub const AL_PRJ: i32 = 5;
/// Message kind: manager event.
pub const SE_MAN: i32 = 6;
/// Message kind: monitor event.
pub const SE_MON: i32 = 7;

/// A dynamically typed value carried by a message. A floating-point value is
/// held by its IEEE 754 bit pattern (`f64::to_bits`).
#[derive(Clone, Debug)]
pub enum Variant {
    Empty,
    Integer(i32),
    Float(u64),
    String(String),
    Boolean(bool),
}

/// The text a value is shown as: `Null`, the decimal integer, the string
/// itself, or `True` / `False`. The text of a floating-point value is the
/// standard formatting of `f64`, which this library does not compute: `None`.
pub open spec fn variant_text(v: Variant) -> Option<Seq<char>> {
    match v {
        Variant::Empty => Some("Null"@),
        Variant::Integer(n) => Some(int_text(n as int)),
        Variant::Float(_) => None,
        Variant::String(s) => Some(s@),
        Variant::Boolean(b) => Some(if b { "True"@ } else { "False"@ }),
    }
}

impl Variant {
    /// The text of this value (see `variant_text`).
    pub fn display_text(&self) -> (r: Option<String>)
        ensures
            r is Some <==> variant_text(*self) is Some,
            r matches Some(s) ==> s@ == variant_text(*self)->0,
    {
        match self {
            Variant::Empty => Some(String::from_str("Null")),
            Variant::Integer(n) => Some(i32_text(*n)),
            Variant::Float(_) => None,
            Variant::String(s) => Some(s.clone()),
            Variant::Boolean(b) => {
                if *b {
                    Some(String::from_str("True"))
                } else {
                    Some(String::from_str("False"))
                }
            },
        }
    }
}

/// What a message carries, by kind.
#[derive(Clone, Debug)]
pub enum MsgPayload {
    Generic { val: Variant },
    PropLog {
        prop_name: String,
        unit_name: String,
        new_value: Variant,
        channel_id: u32,
        is_tag: bool,
    },
    ErrLog { msg_str: String, bug_type: i32 },
    ClientPropMod { prop_name: String, unit_name: String, new_value: Variant },
    ConnectLog { login: String, machine: String, connected: bool },
}

/// A message of the server, stamped with the local time at which it was made.
#[derive(Clone, Debug)]
pub struct SrvMsg {
    pub msg: i32,
    pub index: i32,
    pub client_id: i32,
    pub msg_date_time: MsgDateTime,
    pub prj_name: String,
    pub sender_id: Option<usize>,
    pub payload: MsgPayload,
}

impl SrvMsg {
    /// A message with the given fields, stamped with the time `at`, and no sender.
    pub fn new_at(
        msg: i32,
        index: i32,
        client_id: i32,
        prj_name: String,
        payload: MsgPayload,
        at: MsgDateTime,
    ) -> (m: SrvMsg)
        ensures
            m.msg == msg,
            m.index == index,
            m.client_id == client_id,
            m.prj_name == prj_name,
            m.payload == payload,
            m.msg_date_time == at,
            m.sender_id is None,
    {
        SrvMsg {
            msg,
            index,
            client_id,
            msg_date_time: at,
            prj_name,
            sender_id: None,
            payload,
        }
    }

    /// A message with the given fields, stamped with the current local time,
    /// and no sender; `None` when the clock reads a time that chrono's
    /// calendar cannot hold.
    pub fn new(msg: i32, index: i32, client_id: i32, prj_name: String, payload: MsgPayload) -> (r:
        Option<SrvMsg>)
        ensures
            r matches Some(m) ==> {
                &&& m.msg == msg
                &&& m.index == index
                &&& m.client_id == client_id
                &&& m.prj_name == prj_name
                &&& m.payload == payload
                &&& is_valid_parts(m.msg_date_time@)
                &&& m.sender_id is None
            },
    {
        match local_now() {
            Some(now) => Some(SrvMsg::new_at(msg, index, client_id, prj_name, payload, now)),
            None => None,
        }
    }

    /// The client id as an integer value.
    pub fn get_client_id(&self) -> (v: Variant)
        ensures
            v == Variant::Integer(self.client_id),
    {
        Variant::Integer(self.client_id)
    }

    /// The time of the message as the string `YYYY-MM-DD HH:MM:SS`.
    pub fn get_msg_date_time(&self) -> (v: Variant)
        ensures
            v matches Variant::String(s) && s@ == iso_text(self.msg_date_time@),
    {
        Variant::String(timestamp_text(&self.msg_date_time))
    }

    /// The project name as a string value.
    pub fn get_prj_name(&self) -> (v: Variant)
        ensures
            v matches Variant::String(s) && s@ == self.prj_name@,
    {
        Variant::String(self.prj_name.clone())
    }
}

/// The text of an integer value reads back as that integer.
pub proof fn lemma_integer_text_reads_back(n: i32)
    ensures
        variant_text(Variant::Integer(n)) matches Some(t) && read_int(t) == Some(n as int),
{
    lemma_int_text_round_trip(n as int);
}

} // verus!
