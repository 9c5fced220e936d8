//! The event-record decoder: turns one raw event's XML text into a flat
//! field map, normalizing the event's creation time into the fixed display
//! form.
//!
//! Tokenization is quick_xml's work and stays behind trusted wrappers whose
//! contracts speak of an abstract token stream (`xml_tokens`); everything
//! decided about those tokens — which elements carry fields, how repeated
//! names and the time marker are treated — is verified code, specified by
//! `decode_tokens`.

use vstd::prelude::*;
use vstd::string::*;
use crate::timestamp::{parse_rfc3339, render, render_spec, rfc3339_utc};
use quick_xml::events::Event;

verus! {

/// The mathematical content of one markup token: an element with inline
/// content (`Open`), bare text, an empty element (`Hollow`), or anything
/// else. Attribute maps hold the decoded, entity-unescaped values of the
/// attributes that can be read as text; an undecodable value leaves its
/// key out.
pub enum TokV {
    Open { name: Seq<char>, attrs: Map<Seq<char>, Seq<char>> },
    Text { content: Seq<char> },
    Hollow { name: Seq<char>, attrs: Map<Seq<char>, Seq<char>> },
    Other,
}

/// One markup token as the scanner hands it out; an element token's local
/// name and attributes stay readable on the scanner.
enum Step {
    Open,
    Text(String),
    Hollow,
    Other,
    End,
}

/// The token stream of one document's text, in scan order, truncated at
/// the first tokenization error.
pub uninterp spec fn xml_tokens(xml: Seq<char>) -> Seq<TokV>;

/// The tokens a scanner has still to hand out.
pub uninterp spec fn scan_rest(s: XmlScanner) -> Seq<TokV>;

/// The decoded attributes of the element token the scanner last handed out.
pub uninterp spec fn scan_attrs(s: XmlScanner) -> Map<Seq<char>, Seq<char>>;

/// The local name of the element token the scanner last handed out.
pub uninterp spec fn scan_name(s: XmlScanner) -> Seq<char>;

/// Walks one event's markup. Wraps quick_xml's pull reader together with
/// the element whose attributes may still be read.
pub struct XmlScanner {
    reader: quick_xml::Reader<std::io::Cursor<Vec<u8>>>,
    current: Option<quick_xml::events::BytesStart<'static>>,
}

#[verifier::external_type_specification]
#[verifier::external_body]
#[verifier::reject_recursive_types(R)]
pub struct ExReader<R>(quick_xml::Reader<R>);

#[verifier::external_type_specification]
#[verifier::external_body]
pub struct ExBytesStart<'a>(quick_xml::events::BytesStart<'a>);

#[verifier::external_type_specification]
#[verifier::external_body]
#[verifier::reject_recursive_types(T)]
pub struct ExCursor<T>(std::io::Cursor<T>);

/// Relies on quick_xml's `Reader::from_reader` with text trimming switched
/// on: a fresh reader will yield exactly the document's token stream.
#[verifier::external_body]
fn scanner_new(xml: &str) -> (s: XmlScanner)
    ensures
        scan_rest(s) == xml_tokens(xml@),
{
    let mut reader = quick_xml::Reader::from_reader(std::io::Cursor::new(xml.as_bytes().to_vec()));
    reader.trim_text(true);
    XmlScanner { reader, current: None }
}

/// Relies on quick_xml's `Reader::read_event_into`: each call hands out the
/// head of the remaining token stream — start and empty element events with
/// their name and attributes left readable on the scanner, text events with
/// their unescaped content — and the stream past its end (end of file, or a
/// tokenization error) is empty.
#[verifier::external_body]
fn advance(s: &mut XmlScanner) -> (t: Step)
    ensures
        scan_rest(*old(s)).len() == 0 ==> t == Step::End && scan_rest(*final(s)).len() == 0,
        scan_rest(*old(s)).len() > 0 ==> {
            &&& scan_rest(*final(s)) == scan_rest(*old(s)).drop_first()
            &&& match scan_rest(*old(s))[0] {
                TokV::Open { name, attrs } => t == Step::Open && scan_name(*final(s)) == name
                    && scan_attrs(*final(s)) == attrs,
                TokV::Text { content } => t matches Step::Text(c) && c@ == content,
                TokV::Hollow { name, attrs } => t == Step::Hollow && scan_name(*final(s)) == name
                    && scan_attrs(*final(s)) == attrs,
                TokV::Other => t == Step::Other,
            }
        },
{
    let mut buf: Vec<u8> = Vec::new();
    match s.reader.read_event_into(&mut buf) {
        Ok(Event::Start(e)) => { s.current = Some(e.into_owned()); Step::Open },
        Ok(Event::Empty(e)) => { s.current = Some(e.into_owned()); Step::Hollow },
        Ok(Event::Text(e)) => match e.unescape() { Ok(c) => Step::Text(c.into_owned()), Err(_) => Step::Other },
        Ok(Event::Eof) | Err(_) => Step::End,
        Ok(_) => Step::Other,
    }
}

/// Relies on quick_xml's `BytesStart::local_name`: hands out the local name
/// of the last element token.
#[verifier::external_body]
fn element_name(s: &XmlScanner) -> (r: String)
    ensures
        r@ == scan_name(*s),
{
    match &s.current {
        Some(e) => String::from_utf8_lossy(e.local_name().as_ref()).into_owned(),
        None => String::new(),
    }
}

/// Relies on quick_xml's `BytesStart::try_get_attribute` and
/// `Attribute::decode_and_unescape_value`: hands out the decoded value of
/// the named attribute of the last element token, `None` where that element
/// has no such readable attribute.
#[verifier::external_body]
fn attr_value(s: &XmlScanner, key: &str) -> (r: Option<String>)
    ensures
        match r {
            Some(v) => scan_attrs(*s).contains_key(key@) && v@ == scan_attrs(*s)[key@],
            None => !scan_attrs(*s).contains_key(key@),
        },
{
    match &s.current {
        Some(e) => match e.try_get_attribute(key) {
            Ok(Some(a)) => match a.decode_and_unescape_value(&s.reader) {
                Ok(v) => Some(v.into_owned()),
                Err(_) => None,
            },
            _ => None,
        },
        None => None,
    }
}

/// What decoding makes of a token stream, given the field name armed by the
/// last `Data` element (`pending`, empty when none) and the fields read so
/// far: a `Data` element's `Name` attribute arms a field name; the next
/// text content fills it (later fields of the same name win); the empty
/// `TimeCreated` element contributes its `SystemTime` attribute, parsed as
/// RFC 3339 and re-rendered in the fixed display form, when that parse
/// yields a renderable timestamp; everything else is ignored.
pub open spec fn decode_tokens(
    toks: Seq<TokV>,
    pending: Seq<char>,
    acc: Map<Seq<char>, Seq<char>>,
) -> Map<Seq<char>, Seq<char>>
    decreases toks.len(),
{
    if toks.len() == 0 {
        acc
    } else {
        let rest = toks.drop_first();
        match toks[0] {
            TokV::Open { name, attrs } => if name == "Data"@ && attrs.contains_key("Name"@) {
                decode_tokens(rest, attrs["Name"@], acc)
            } else {
                decode_tokens(rest, pending, acc)
            },
            TokV::Text { content } => if pending.len() > 0 {
                decode_tokens(rest, Seq::empty(), acc.insert(pending, content))
            } else {
                decode_tokens(rest, pending, acc)
            },
            TokV::Hollow { name, attrs } => if name == "TimeCreated"@ && attrs.contains_key(
                "SystemTime"@,
            ) {
                match rfc3339_utc(attrs["SystemTime"@]) {
                    Some(ts) => if ts.valid() {
                        decode_tokens(rest, pending, acc.insert("TimeCreated"@, render_spec(ts)))
                    } else {
                        decode_tokens(rest, pending, acc)
                    },
                    None => decode_tokens(rest, pending, acc),
                }
            } else {
                decode_tokens(rest, pending, acc)
            },
            TokV::Other => decode_tokens(rest, pending, acc),
        }
    }
}

/// The field map decoded from one event's text.
pub open spec fn decode_spec(xml: Seq<char>) -> Map<Seq<char>, Seq<char>> {
    decode_tokens(xml_tokens(xml), Seq::empty(), Map::empty())
}

/// The map a field-entry sequence denotes: later entries win.
spec fn fields_map(s: Seq<(String, String)>) -> Map<Seq<char>, Seq<char>>
    decreases s.len(),
{
    if s.len() == 0 {
        Map::empty()
    } else {
        fields_map(s.drop_last()).insert(s.last().0@, s.last().1@)
    }
}

proof fn lemma_fields_contains(s: Seq<(String, String)>, k: Seq<char>)
    ensures
        fields_map(s).contains_key(k) <==> exists|i: int| 0 <= i < s.len() && s[i].0@ == k,
    decreases s.len(),
{
    if s.len() > 0 {
        lemma_fields_contains(s.drop_last(), k);
        if entries_contain(s, k) {
            let i = choose|i: int| 0 <= i < s.len() && s[i].0@ == k;
            if i < s.len() - 1 {
                assert(s.drop_last()[i].0@ == k);
            }
        }
        if fields_map(s).contains_key(k) && s.last().0@ != k {
            let i = choose|i: int| 0 <= i < s.drop_last().len() && s.drop_last()[i].0@ == k;
            assert(s[i].0@ == k);
        }
        if s.last().0@ == k {
            assert(s[s.len() - 1].0@ == k);
        }
    }
}

spec fn entries_contain(s: Seq<(String, String)>, k: Seq<char>) -> bool {
    exists|i: int| 0 <= i < s.len() && s[i].0@ == k
}

proof fn lemma_fields_last_match(s: Seq<(String, String)>, i: int)
    requires
        0 <= i < s.len(),
        forall|j: int| i < j < s.len() ==> s[j].0@ != s[i].0@,
    ensures
        fields_map(s).contains_key(s[i].0@),
        fields_map(s)[s[i].0@] == s[i].1@,
    decreases s.len(),
{
    if i == s.len() - 1 {
    } else {
        assert(s.drop_last()[i] == s[i]);
        lemma_fields_last_match(s.drop_last(), i);
        assert(s[i].0@ != s[s.len() - 1].0@);
    }
}

/// The flat mapping from field name to field value decoded from one event.
/// Any field may be missing; absence means "unknown", never an error.
pub struct FieldMap {
    entries: Vec<(String, String)>,
}

impl View for FieldMap {
    type V = Map<Seq<char>, Seq<char>>;

    closed spec fn view(&self) -> Map<Seq<char>, Seq<char>> {
        fields_map(self.entries@)
    }
}

impl FieldMap {
    /// An empty field map.
    pub fn new() -> (r: FieldMap)
        ensures
            r@ == Map::<Seq<char>, Seq<char>>::empty(),
    {
        FieldMap { entries: Vec::new() }
    }

    /// Records one field; a later value for the same name wins.
    pub fn insert(&mut self, key: String, value: String)
        ensures
            final(self)@ == old(self)@.insert(key@, value@),
    {
        let ghost old_entries = self.entries@;
        self.entries.push((key, value));
        proof {
            assert(self.entries@.drop_last() =~= old_entries);
        }
    }

    /// Reads one field's value.
    pub fn get<'a>(&'a self, key: &str) -> (r: Option<&'a String>)
        ensures
            match r {
                Some(v) => self@.contains_key(key@) && v@ == self@[key@],
                None => !self@.contains_key(key@),
            },
    {
        proof {
            lemma_fields_contains(self.entries@, key@);
        }
        let wanted = String::from_str(key);
        let mut i: usize = self.entries.len();
        while i > 0
            invariant
                i <= self.entries@.len(),
                wanted@ == key@,
                forall|j: int| i <= j < self.entries@.len() ==> self.entries@[j].0@ != key@,
            decreases i,
        {
            i = i - 1;
            if self.entries[i].0 == wanted {
                proof {
                    lemma_fields_last_match(self.entries@, i as int);
                }
                return Some(&self.entries[i].1);
            }
        }
        None
    }
}

/// Decodes one raw event's XML text into its field map. Decoding is
/// best-effort: malformed markup truncates the scan, an unreadable or
/// unparsable time attribute leaves the field out, and nothing here fails.
pub fn parse_event_data(event_xml: &str) -> (m: FieldMap)
    ensures
        m@ == decode_spec(event_xml@),
{
    let data_name = String::from_str("Data");
    let time_created_name = String::from_str("TimeCreated");
    let mut scanner = scanner_new(event_xml);
    let mut fields = FieldMap::new();
    let mut pending = String::new();
    loop
        invariant_except_break
            decode_tokens(scan_rest(scanner), pending@, fields@) == decode_spec(event_xml@),
            data_name@ == "Data"@,
            time_created_name@ == "TimeCreated"@,
        ensures
            fields@ == decode_spec(event_xml@),
        decreases scan_rest(scanner).len(),
    {
        let ghost rest = scan_rest(scanner);
        let step = advance(&mut scanner);
        match step {
            Step::End => {
                break ;
            },
            Step::Open => {
                let n = element_name(&scanner);
                if n == data_name {
                    match attr_value(&scanner, "Name") {
                        Some(v) => {
                            pending = v;
                        },
                        None => {},
                    }
                }
            },
            Step::Text(c) => {
                if !pending.as_str().is_empty() {
                    fields.insert(pending, c);
                    pending = String::new();
                }
            },
            Step::Hollow => {
                let n = element_name(&scanner);
                if n == time_created_name {
                    match attr_value(&scanner, "SystemTime") {
                        Some(tstr) => {
                            match parse_rfc3339(tstr.as_str()) {
                                Some(ts) => {
                                    if ts.is_valid() {
                                        fields.insert(String::from_str("TimeCreated"), render(&ts));
                                    }
                                },
                                None => {},
                            }
                        },
                        None => {},
                    }
                }
            },
            Step::Other => {},
        }
    }
    fields
}

} // verus!
