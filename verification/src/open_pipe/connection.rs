//! The message vocabulary of the Open Pipe protocol, and the part of a
//! connection that needs no socket: the cookies that tell requests apart, the
//! requests themselves, and the framing of an outgoing message.
//!
//! A message travels as one line of JSON. Turning a message into JSON and
//! back is left to the caller; `frame_command` makes the line that is sent
//! from the JSON text.
use crate::text::{char_at, decimal_text, str_to_chars, u64_to_string};
use vstd::prelude::*;
use vstd::string::*;

verus! {

/// An error code of the runtime with its description. Code 0 means success.
#[derive(Debug)]
pub struct ErrorInfo {
    pub error_code: u32,
    pub error_description: String,
}

/// The hexadecimal digit, in lower case, for a number below 16.
pub open spec fn hex_digit(d: int) -> char {
    if d < 10 {
        ((48 + d) as u8) as char
    } else {
        ((87 + d) as u8) as char
    }
}

/// A number written with eight hexadecimal digits, in lower case.
pub open spec fn hex8(n: u32) -> Seq<char> {
    Seq::new(8, |i: int| hex_digit(((n as int) / pow16(7 - i)) % 16))
}

/// Sixteen to the power `e`.
pub open spec fn pow16(e: int) -> int
    decreases e,
{
    if e <= 0 {
        1
    } else {
        16 * pow16(e - 1)
    }
}

fn hex_char(d: u32) -> (c: char)
    requires
        d < 16,
    ensures
        c == hex_digit(d as int),
{
    if d < 10 {
        ((48 + d) as u8) as char
    } else {
        ((87 + d) as u8) as char
    }
}

impl ErrorInfo {
    /// The text of the error: the description, then the code in
    /// hexadecimal.
    pub open spec fn text(&self) -> Seq<char> {
        self.error_description@ + " (0x"@ + hex8(self.error_code) + ")"@
    }

    /// The text of the error: the description, then the code in
    /// hexadecimal.
    pub fn to_string(&self) -> (s: String)
        ensures
            s@ == self.text(),
    {
        let mut s = self.error_description.clone();
        s.append(" (0x");
        let mut digits = String::new();
        let mut i: u32 = 0;
        let n = self.error_code;
        proof {
            assert(pow16(0) == 1);
            assert(pow16(1) == 16) by {
                reveal_with_fuel(pow16, 2);
            }
            assert(pow16(2) == 0x100) by {
                reveal_with_fuel(pow16, 3);
            }
            assert(pow16(3) == 0x1000) by {
                reveal_with_fuel(pow16, 4);
            }
            assert(pow16(4) == 0x10000) by {
                reveal_with_fuel(pow16, 5);
            }
            assert(pow16(5) == 0x100000) by {
                reveal_with_fuel(pow16, 6);
            }
            assert(pow16(6) == 0x1000000) by {
                reveal_with_fuel(pow16, 7);
            }
            assert(pow16(7) == 0x10000000) by {
                reveal_with_fuel(pow16, 8);
            }
        }
        while i < 8
            invariant
                i <= 8,
                digits@ == hex8(n).take(i as int),
                pow16(0) == 1,
                pow16(1) == 16,
                pow16(2) == 0x100,
                pow16(3) == 0x1000,
                pow16(4) == 0x10000,
                pow16(5) == 0x100000,
                pow16(6) == 0x1000000,
                pow16(7) == 0x10000000,
            decreases 8 - i,
        {
            let shift: u32 = 4 * (7 - i);
            let d: u32 = (n >> shift) & 0xf;
            proof {
                assert(shift == 0 || shift == 4 || shift == 8 || shift == 12 || shift == 16 || shift
                    == 20 || shift == 24 || shift == 28);
                assert((n >> 0u32) & 0xf == n % 16) by (bit_vector);
                assert((n >> 4u32) & 0xf == (n / 0x10) % 16) by (bit_vector);
                assert((n >> 8u32) & 0xf == (n / 0x100) % 16) by (bit_vector);
                assert((n >> 12u32) & 0xf == (n / 0x1000) % 16) by (bit_vector);
                assert((n >> 16u32) & 0xf == (n / 0x10000) % 16) by (bit_vector);
                assert((n >> 20u32) & 0xf == (n / 0x100000) % 16) by (bit_vector);
                assert((n >> 24u32) & 0xf == (n / 0x1000000) % 16) by (bit_vector);
                assert((n >> 28u32) & 0xf == (n / 0x10000000) % 16) by (bit_vector);
                assert(d == ((n as int) / pow16(7 - i)) % 16);
            }
            digits.push(hex_char(d));
            proof {
                assert(hex8(n).take(i + 1) =~= hex8(n).take(i as int).push(hex8(n)[i as int]));
            }
            i += 1;
        }
        proof {
            assert(hex8(n).take(8) =~= hex8(n));
        }
        s.append(digits.as_str());
        s.append(")");
        s
    }

    /// A copy of the error.
    pub fn duplicate(&self) -> (r: ErrorInfo)
        ensures
            r == *self,
    {
        ErrorInfo {
            error_code: self.error_code,
            error_description: self.error_description.clone(),
        }
    }
}

impl Default for ErrorInfo {
    /// No error: code 0 and an empty description.
    fn default() -> (r: ErrorInfo)
        ensures
            r.error_code == 0,
            r.error_description@ == Seq::<char>::empty(),
    {
        ErrorInfo { error_code: 0, error_description: String::new() }
    }
}

impl Clone for ErrorInfo {
    fn clone(&self) -> (r: ErrorInfo)
        ensures
            r == *self,
    {
        self.duplicate()
    }
}

/// The tags that a client subscribes to. An empty list means every tag.
#[derive(Debug)]
pub struct SubscribeTagParams {
    pub tags: Vec<String>,
}

/// The tags that a client asks the values of.
#[derive(Debug)]
pub struct ReadTagParams {
    pub tags: Vec<String>,
}

/// A tag with its value.
#[derive(Debug)]
pub struct TagData {
    pub name: String,
    pub value: String,
    pub quality: String,
    pub quality_code: i32,
}

/// A tag with its value, as a mathematical value.
pub struct TagValue {
    pub name: Seq<char>,
    pub value: Seq<char>,
    pub quality: Seq<char>,
    pub quality_code: i32,
}

impl View for TagData {
    type V = TagValue;

    open spec fn view(&self) -> TagValue {
        TagValue {
            name: self.name@,
            value: self.value@,
            quality: self.quality@,
            quality_code: self.quality_code,
        }
    }
}

impl TagData {
    /// A copy of the tag.
    pub fn duplicate(&self) -> (r: TagData)
        ensures
            r == *self,
    {
        TagData {
            name: self.name.clone(),
            value: self.value.clone(),
            quality: self.quality.clone(),
            quality_code: self.quality_code,
        }
    }
}

impl Clone for TagData {
    fn clone(&self) -> (r: TagData)
        ensures
            r == *self,
    {
        self.duplicate()
    }
}

/// A tag value reported to a subscriber.
#[derive(Debug)]
pub struct NotifyTag {
    pub data: TagData,
    pub time_stamp: String,
    pub error: ErrorInfo,
}

impl Clone for NotifyTag {
    fn clone(&self) -> (r: NotifyTag)
        ensures
            r == *self,
    {
        NotifyTag {
            data: self.data.duplicate(),
            time_stamp: self.time_stamp.clone(),
            error: self.error.duplicate(),
        }
    }
}

/// A value to write to a tag.
#[derive(Debug)]
pub struct WriteTagValue {
    pub name: String,
    pub value: String,
}

impl Clone for WriteTagValue {
    fn clone(&self) -> (r: WriteTagValue)
        ensures
            r == *self,
    {
        WriteTagValue { name: self.name.clone(), value: self.value.clone() }
    }
}

/// The values that a client writes.
#[derive(Debug)]
pub struct WriteTagParams {
    pub tags: Vec<WriteTagValue>,
}

/// The tag values reported to a subscriber.
#[derive(Debug)]
pub struct NotifyTags {
    pub tags: Vec<NotifyTag>,
}

/// The outcome of writing one tag.
#[derive(Debug)]
pub struct NotifyWriteTag {
    pub name: String,
    pub error: ErrorInfo,
}

/// The outcomes of a write request.
#[derive(Debug)]
pub struct NotifyWriteTags {
    pub tags: Vec<NotifyWriteTag>,
}

/// The parameters of a write acknowledgement: the outcomes of the request.
pub type NotifyWriteTagParams = NotifyWriteTags;

/// What a client wants to know of alarms.
#[derive(Debug)]
pub struct SubscribeAlarmParams {
    pub system_names: Option<Vec<String>>,
    pub filter: Option<String>,
    pub language_id: Option<u32>,
}

/// An alarm as it travels: every field is text, numbers are decimal.
#[derive(Debug)]
pub struct NotifyAlarm {
    pub name: String,
    pub id: String,
    pub alarm_class_name: String,
    pub alarm_class_symbol: String,
    pub event_text: String,
    pub instance_id: String,
    pub priority: String,
    pub state: String,
    pub state_text: String,
    pub state_machine: String,
    pub modification_time: String,
}

impl Clone for NotifyAlarm {
    fn clone(&self) -> (r: NotifyAlarm)
        ensures
            r == *self,
    {
        NotifyAlarm {
            name: self.name.clone(),
            id: self.id.clone(),
            alarm_class_name: self.alarm_class_name.clone(),
            alarm_class_symbol: self.alarm_class_symbol.clone(),
            event_text: self.event_text.clone(),
            instance_id: self.instance_id.clone(),
            priority: self.priority.clone(),
            state: self.state.clone(),
            state_text: self.state_text.clone(),
            state_machine: self.state_machine.clone(),
            modification_time: self.modification_time.clone(),
        }
    }
}

/// Parameters that travel under the key `Params`.
#[derive(Debug)]
pub struct ParamWrapperCap<T> {
    pub params: T,
}

impl<T> ParamWrapperCap<T> {
    /// Wraps the parameters.
    pub fn new(params: T) -> (r: ParamWrapperCap<T>)
        ensures
            r.params == params,
    {
        ParamWrapperCap { params }
    }
}

/// Parameters that travel under the key `params`.
#[derive(Debug)]
pub struct ParamWrapperLow<T> {
    pub params: T,
}

/// The alarms reported to a subscriber.
#[derive(Debug)]
pub struct NotifyAlarms {
    pub alarms: Vec<NotifyAlarm>,
}

/// The kinds of message, each with its parameters.
#[derive(Debug)]
pub enum MessageVariant {
    SubscribeTag(ParamWrapperCap<SubscribeTagParams>),
    NotifySubscribeTag(ParamWrapperCap<NotifyTags>),
    ErrorSubscribeTag(ErrorInfo),
    UnsubscribeTag,
    NotifyUnsubscribeTag,
    ErrorUnsubscribeTag(ErrorInfo),
    ReadTag(ParamWrapperCap<ReadTagParams>),
    NotifyReadTag(ParamWrapperCap<NotifyTags>),
    ErrorReadTag(ErrorInfo),
    WriteTag(ParamWrapperCap<WriteTagParams>),
    NotifyWriteTag(ParamWrapperCap<NotifyWriteTags>),
    ErrorWriteTag(ErrorInfo),
    SubscribeAlarm(ParamWrapperCap<SubscribeAlarmParams>),
    ErrorSubscribeAlarm(ErrorInfo),
    NotifySubscribeAlarm(ParamWrapperCap<NotifyAlarms>),
    UnsubscribeAlarm,
    NotifyUnsubscribeAlarm,
    ErrorUnsubscribeAlarm(ErrorInfo),
    ReadAlarm(ParamWrapperCap<SubscribeAlarmParams>),
    NotifyReadAlarm(ParamWrapperLow<NotifyAlarms>),
    ErrorReadAlarm(ErrorInfo),
}

/// A message: its kind and parameters, and the cookie that ties an answer to
/// its request.
#[derive(Debug)]
pub struct Message {
    pub message: MessageVariant,
    pub client_cookie: String,
}

/// The escape of a unit of sixteen bits: `\u` and its four hexadecimal
/// digits.
pub open spec fn unit_escape(unit: int) -> Seq<u8> {
    seq![
        92u8,
        117u8,
        hex_digit(unit / 0x1000) as u8,
        hex_digit((unit / 0x100) % 16) as u8,
        hex_digit((unit / 0x10) % 16) as u8,
        hex_digit(unit % 16) as u8,
    ]
}

/// The bytes that stand for one character of an outgoing message: the
/// character itself if it is ASCII, else its escape. A character whose code
/// does not fit sixteen bits is written as the two halves of its surrogate
/// pair, as JSON asks.
pub open spec fn escaped_char(c: char) -> Seq<u8> {
    if (c as u32) < 0x80 {
        seq![c as u8]
    } else if (c as u32) < 0x10000 {
        unit_escape(c as u32 as int)
    } else {
        let v = (c as u32) - 0x10000;
        unit_escape(0xd800 + v / 0x400) + unit_escape(0xdc00 + v % 0x400)
    }
}

/// The bytes that stand for a text in an outgoing message.
pub open spec fn escaped(s: Seq<char>) -> Seq<u8>
    decreases s.len(),
{
    if s.len() == 0 {
        Seq::empty()
    } else {
        escaped(s.drop_last()) + escaped_char(s.last())
    }
}

/// The line that carries a message: the JSON text with every character
/// outside ASCII escaped, and a line feed.
pub open spec fn framed(json: Seq<char>) -> Seq<u8> {
    escaped(json).push(10u8)
}

/// Appends the escape of a unit of sixteen bits.
fn push_unit(bytes: &mut Vec<u8>, unit: u32)
    requires
        unit < 0x10000,
    ensures
        final(bytes)@ == old(bytes)@ + unit_escape(unit as int),
{
    bytes.push(92u8);
    bytes.push(117u8);
    bytes.push(hex_char(unit / 0x1000) as u8);
    bytes.push(hex_char((unit / 0x100) % 16) as u8);
    bytes.push(hex_char((unit / 0x10) % 16) as u8);
    bytes.push(hex_char(unit % 16) as u8);
    proof {
        assert(bytes@ =~= old(bytes)@ + unit_escape(unit as int));
    }
}

/// Makes the line to send from the JSON text of a message.
pub fn frame_command(json: &str) -> (bytes: Vec<u8>)
    ensures
        bytes@ == framed(json@),
{
    let chars = str_to_chars(json);
    let mut bytes: Vec<u8> = Vec::new();
    let mut i: usize = 0;
    proof {
        assert(chars@.take(0) =~= Seq::<char>::empty());
    }
    while i < chars.len()
        invariant
            i <= chars.len(),
            bytes@ == escaped(chars@.take(i as int)),
        decreases chars.len() - i,
    {
        let c = char_at(&chars, i);
        let ghost before = bytes@;
        proof {
            assert(chars@.take(i + 1).drop_last() =~= chars@.take(i as int));
            assert(chars@.take(i + 1).last() == c);
        }
        let code = c as u32;
        if code < 0x80 {
            bytes.push(code as u8);
            proof {
                assert(code as u8 == c as u8);
                assert(escaped_char(c) =~= seq![c as u8]);
                assert(bytes@ =~= before + escaped_char(c));
            }
        } else if code < 0x10000 {
            push_unit(&mut bytes, code);
        } else {
            let v = code - 0x10000;
            push_unit(&mut bytes, 0xd800 + v / 0x400);
            push_unit(&mut bytes, 0xdc00 + v % 0x400);
            proof {
                assert(bytes@ =~= before + escaped_char(c));
            }
        }
        i += 1;
    }
    proof {
        assert(chars@.take(chars@.len() as int) =~= chars@);
    }
    bytes.push(10u8);
    bytes
}

/// The part of a client connection that makes requests.
pub struct Connection {
    cookie_prefix: String,
    cookie_count: u32,
}

impl Connection {
    /// The text before the number in every cookie of this connection.
    pub closed spec fn prefix(&self) -> Seq<char> {
        self.cookie_prefix@
    }

    /// The number of the last cookie made.
    pub closed spec fn count(&self) -> u32 {
        self.cookie_count
    }

    /// The cookie with a given number.
    pub open spec fn cookie(&self, n: u32) -> Seq<char> {
        self.prefix() + decimal_text(n as int)
    }

    /// The number of the next cookie: one more than the last, starting
    /// again at zero after the largest number.
    pub open spec fn next_count(&self) -> u32 {
        if self.count() == u32::MAX {
            0
        } else {
            (self.count() + 1) as u32
        }
    }

    /// A connection of the process with the given id. Its cookies are
    /// `cookie_<process id>_<number>`, numbered from 1.
    pub fn new(process_id: u32) -> (r: Connection)
        ensures
            r.prefix() == "cookie_"@ + decimal_text(process_id as int) + "_"@,
            r.count() == 0,
    {
        let mut prefix = "cookie_".to_owned();
        let id = u64_to_string(process_id as u64);
        prefix.append(id.as_str());
        prefix.append("_");
        Connection { cookie_prefix: prefix, cookie_count: 0 }
    }

    /// A new cookie.
    pub fn get_cookie(&mut self) -> (r: String)
        ensures
            final(self).prefix() == old(self).prefix(),
            final(self).count() == old(self).next_count(),
            r@ == old(self).cookie(old(self).next_count()),
    {
        self.cookie_count = self.cookie_count.wrapping_add(1);
        let mut cookie = self.cookie_prefix.clone();
        let number = u64_to_string(self.cookie_count as u64);
        cookie.append(number.as_str());
        cookie
    }

    /// The request to be told of changes of the given tags, under a new
    /// cookie.
    pub fn subscribe_tags(&mut self, tags: Vec<String>) -> (r: Message)
        ensures
            final(self).prefix() == old(self).prefix(),
            final(self).count() == old(self).next_count(),
            r.client_cookie@ == old(self).cookie(old(self).next_count()),
            r.message matches MessageVariant::SubscribeTag(p) && p.params.tags == tags,
    {
        Message {
            message: MessageVariant::SubscribeTag(
                ParamWrapperCap { params: SubscribeTagParams { tags } },
            ),
            client_cookie: self.get_cookie(),
        }
    }

    /// The answer to a subscription: the values of the tags.
    pub fn notify_subscibe_tags(tags: NotifyTags, cookie: &str) -> (r: Message)
        ensures
            r.client_cookie@ == cookie@,
            r.message matches MessageVariant::NotifySubscribeTag(p) && p.params == tags,
    {
        Message {
            message: MessageVariant::NotifySubscribeTag(ParamWrapperCap { params: tags }),
            client_cookie: cookie.to_owned(),
        }
    }

    /// The answer to a subscription that failed.
    pub fn error_subscibe_tags(error_code: u32, error_description: String, cookie: &str) -> (r:
        Message)
        ensures
            r.client_cookie@ == cookie@,
            r.message matches MessageVariant::ErrorSubscribeTag(e) && e.error_code == error_code
                && e.error_description == error_description,
    {
        Message {
            message: MessageVariant::ErrorSubscribeTag(ErrorInfo { error_code, error_description }),
            client_cookie: cookie.to_owned(),
        }
    }

    /// The request to end the subscription made under `cookie`.
    pub fn unsubscribe_tags(cookie: &str) -> (r: Message)
        ensures
            r.client_cookie@ == cookie@,
            r.message is UnsubscribeTag,
    {
        Message { message: MessageVariant::UnsubscribeTag, client_cookie: cookie.to_owned() }
    }

    /// The answer to the end of a subscription.
    pub fn notify_unsubscibe_tags(cookie: &str) -> (r: Message)
        ensures
            r.client_cookie@ == cookie@,
            r.message is NotifyUnsubscribeTag,
    {
        Message {
            message: MessageVariant::NotifyUnsubscribeTag,
            client_cookie: cookie.to_owned(),
        }
    }

    /// The request to write the given values, under a new cookie.
    pub fn write_tags(&mut self, tags: Vec<WriteTagValue>) -> (r: Message)
        ensures
            final(self).prefix() == old(self).prefix(),
            final(self).count() == old(self).next_count(),
            r.client_cookie@ == old(self).cookie(old(self).next_count()),
            r.message matches MessageVariant::WriteTag(p) && p.params.tags == tags,
    {
        Message {
            message: MessageVariant::WriteTag(ParamWrapperCap { params: WriteTagParams { tags } }),
            client_cookie: self.get_cookie(),
        }
    }

    /// The request to be told of every alarm, under a new cookie.
    pub fn subscribe_alarms(&mut self) -> (r: Message)
        ensures
            final(self).prefix() == old(self).prefix(),
            final(self).count() == old(self).next_count(),
            r.client_cookie@ == old(self).cookie(old(self).next_count()),
            r.message matches MessageVariant::SubscribeAlarm(p) && p.params.system_names is None
                && p.params.filter is None && p.params.language_id is None,
    {
        Message {
            message: MessageVariant::SubscribeAlarm(
                ParamWrapperCap {
                    params: SubscribeAlarmParams {
                        system_names: None,
                        filter: None,
                        language_id: None,
                    },
                },
            ),
            client_cookie: self.get_cookie(),
        }
    }

    /// The request to end the alarm subscription made under `cookie`.
    pub fn unsubscribe_alarms(cookie: &str) -> (r: Message)
        ensures
            r.client_cookie@ == cookie@,
            r.message is UnsubscribeAlarm,
    {
        Message { message: MessageVariant::UnsubscribeAlarm, client_cookie: cookie.to_owned() }
    }
}

} // verus!
