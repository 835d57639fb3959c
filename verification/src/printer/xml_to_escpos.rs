//! Translation of a print job in markup into the printer's command stream.
//!
//! The translator is a state machine over the events of the document. It is
//! outside the job until an element whose name ends with the root marker
//! opens. From then on every opening tag becomes the current element, and
//! every text is interpreted by the current element's name: `feed` breaks
//! lines, `text` prints a line, `image` sends a raster image. The buffer
//! begins with the reset command and ends with the cut command.

use crate::escpos::{
    align_command, append_cut, append_feed, append_raster, append_text, cut_command, init_command,
    line_breaks, new_buffer, raster_header, raster_image, text_line, Alignment, LINE_BREAK,
};
use crate::printer::markup::{
    attribute_pairs, decode_event, decoded_event, document_events, next_event, open_reader,
    pending_events, EventModel, MarkupAttribute, MarkupEvent, RawEvent,
};
use crate::text::{
    after_last, decimal, digit_value, digits_value, ends_with, format_decimal, is_suffix_of,
    lemma_unsigned_outcome, number_message, parse_size, same_text, spells, tail_after_last,
    unsigned_outcome, unsigned_value, NumberError,
};
use base64::engine::general_purpose::STANDARD;
use base64::Engine;
use vstd::prelude::*;
use vstd::string::StringExecFns;
use vstd::utf8::encode_utf8;

verus! {

/// `base64::DecodeError`, the reason why text is not base64.
#[verifier::external_type_specification]
#[verifier::external_body]
pub struct ExDecodeError(base64::DecodeError);

/// What made the markup unreadable.
#[derive(Debug)]
pub enum ParseCause {
    /// The XML reader failed, or an entity reference could not be resolved.
    Markup(quick_xml::Error),
    /// The content of an image is not base64.
    Base64(base64::DecodeError),
    /// The height of an image is not an unsigned number.
    Height(NumberError),
}

/// Why a print job could not be translated.
#[derive(Debug)]
pub enum TranslationError {
    /// The markup is malformed.
    ParseError(ParseCause),
    /// An image does not state its height.
    MissingAttribute,
    /// The bytes of an image do not make up whole rows of the stated height.
    ImageSizeMismatch { height: usize },
}

/// A translation error in words, where the library words it itself: the
/// two causes that come from outside carry their own description.
pub open spec fn translation_message(error: TranslationError) -> Option<Seq<char>> {
    match error {
        TranslationError::ParseError(ParseCause::Markup(_)) => None,
        TranslationError::ParseError(ParseCause::Base64(_)) => None,
        TranslationError::ParseError(ParseCause::Height(e)) => Some(number_message(e)),
        TranslationError::MissingAttribute => Some("Missing height"@),
        TranslationError::ImageSizeMismatch { height } => Some(
            "Image RAW length mismatch height="@ + decimal(height as nat),
        ),
    }
}

/// The view of an optional message.
pub open spec fn optional_message(text: Option<String>) -> Option<Seq<char>> {
    match text {
        Some(t) => Some(t@),
        None => None,
    }
}

impl TranslationError {
    /// The error in words; `None` where the cause is an error of the XML
    /// reader or of the base64 decoder, which describes itself.
    pub fn message(&self) -> (text: Option<String>)
        ensures
            optional_message(text) == translation_message(*self),
    {
        match self {
            TranslationError::ParseError(ParseCause::Markup(_)) => None,
            TranslationError::ParseError(ParseCause::Base64(_)) => None,
            TranslationError::ParseError(ParseCause::Height(e)) => Some(e.message()),
            TranslationError::MissingAttribute => Some(String::from_str("Missing height")),
            TranslationError::ImageSizeMismatch { height } => {
                let mut text = String::from_str("Image RAW length mismatch height=");
                let digits = format_decimal(*height);
                text.append(digits.as_str());
                Some(text)
            },
        }
    }
}

/// `text` without the white space at either end.
pub uninterp spec fn trimmed(text: Seq<char>) -> Seq<char>;

/// The bytes that `text` encodes in standard base64 with padding, or why it encodes none.
pub uninterp spec fn base64_decoded(text: Seq<char>) -> Result<Seq<u8>, base64::DecodeError>;

/// What decoding yields, the bytes taken by their view.
pub open spec fn bytes_outcome(raw: Result<Vec<u8>, base64::DecodeError>) -> Result<
    Seq<u8>,
    base64::DecodeError,
> {
    match raw {
        Ok(bytes) => Ok(bytes@),
        Err(e) => Err(e),
    }
}

/// Cuts the white space off both ends of `text`.
///
/// Calls `str::trim`.
#[verifier::external_body]
fn trim(text: &str) -> (inner: &str)
    ensures
        inner@ == trimmed(text@),
{
    text.trim()
}

/// Decodes base64.
///
/// Calls `base64::Engine::decode` on the engine `STANDARD`.
#[verifier::external_body]
fn decode_base64(text: &str) -> (raw: Result<Vec<u8>, base64::DecodeError>)
    ensures
        bytes_outcome(raw) == base64_decoded(text@),
{
    STANDARD.decode(text)
}

/// The state of a translation.
pub struct TranslatorModel {
    /// Whether the root element has opened.
    pub inside: bool,
    /// The name of the element opened last.
    pub tag: Seq<char>,
    /// The attributes of that element, and of no other.
    pub attributes: Seq<(Seq<char>, Seq<char>)>,
    /// The commands produced so far.
    pub out: Seq<u8>,
}

/// What an event does to a translation.
pub enum Step {
    /// The translation goes on in the given state.
    Continue(TranslatorModel),
    /// The document is over: the root element closed, or the input ended.
    Done,
    /// The translation fails.
    Failed(TranslationError),
}

/// Whether an element name marks the root of a print job.
pub open spec fn is_root(name: Seq<char>) -> bool {
    is_suffix_of("epos-print"@, name)
}

/// An element's name without the namespace that precedes it in braces.
pub open spec fn local_name(tag: Seq<char>) -> Seq<char> {
    after_last(tag, '}')
}

/// The value of the attribute `key`; of two with the same key, the later.
pub open spec fn attribute_value(attributes: Seq<(Seq<char>, Seq<char>)>, key: Seq<char>) -> Option<
    Seq<char>,
>
    decreases attributes.len(),
{
    if attributes.len() == 0 {
        None
    } else if attributes.last().0 == key {
        Some(attributes.last().1)
    } else {
        attribute_value(attributes.drop_last(), key)
    }
}

/// How many lines a `feed` element breaks: its `line` attribute, and one
/// where that is absent or no number.
pub open spec fn feed_count(attributes: Seq<(Seq<char>, Seq<char>)>) -> nat {
    match attribute_value(attributes, "line"@) {
        Some(text) => match unsigned_value(text, 10, usize::MAX as nat) {
            Some(n) => n,
            None => 1,
        },
        None => 1,
    }
}

/// The alignment that a value of the `align` attribute selects.
pub open spec fn alignment_named(value: Option<Seq<char>>) -> Alignment {
    match value {
        Some(name) => if name == "center"@ {
            Alignment::Center
        } else if name == "right"@ {
            Alignment::Right
        } else {
            Alignment::Left
        },
        None => Alignment::Left,
    }
}

/// The commands for an image of the bytes `rows`, whose height is stated as `height`.
pub open spec fn image_commands(rows: Seq<u8>, height: Option<Seq<char>>) -> Result<
    Seq<u8>,
    TranslationError,
> {
    match height {
        None => Err(TranslationError::MissingAttribute),
        Some(text) => match unsigned_outcome(text, 10, usize::MAX as nat) {
            Err(e) => Err(TranslationError::ParseError(ParseCause::Height(e))),
            Ok(h) => if h == 0 || rows.len() % h != 0 {
                Err(TranslationError::ImageSizeMismatch { height: h as usize })
            } else {
                Ok(raster_image(rows.len() / h, h, rows))
            },
        },
    }
}

/// The commands that a text inside the element `tag` produces.
pub open spec fn content_commands(
    tag: Seq<char>,
    attributes: Seq<(Seq<char>, Seq<char>)>,
    text: Seq<char>,
) -> Result<Seq<u8>, TranslationError> {
    let name = local_name(tag);
    if name == "feed"@ {
        Ok(line_breaks(feed_count(attributes)))
    } else if name == "text"@ {
        Ok(text_line(alignment_named(attribute_value(attributes, "align"@)), text))
    } else if name == "image"@ {
        match base64_decoded(trimmed(text)) {
            Err(e) => Err(TranslationError::ParseError(ParseCause::Base64(e))),
            Ok(rows) => image_commands(rows, attribute_value(attributes, "height"@)),
        }
    } else {
        Ok(Seq::empty())
    }
}

/// The state in which every translation begins.
pub open spec fn initial_state() -> TranslatorModel {
    TranslatorModel {
        inside: false,
        tag: Seq::empty(),
        attributes: Seq::empty(),
        out: init_command(),
    }
}

/// What `event` does in `state`.
pub open spec fn step(state: TranslatorModel, event: EventModel) -> Step {
    match event {
        EventModel::Start { name, attributes } => {
            if state.inside || is_root(name) {
                match attributes {
                    Ok(list) => Step::Continue(
                        TranslatorModel {
                            inside: true,
                            tag: name,
                            attributes: list,
                            out: state.out,
                        },
                    ),
                    Err(e) => Step::Failed(TranslationError::ParseError(ParseCause::Markup(e))),
                }
            } else {
                Step::Continue(state)
            }
        },
        EventModel::Text { content } => {
            if !state.inside {
                Step::Continue(state)
            } else {
                match content {
                    Err(e) => Step::Failed(TranslationError::ParseError(ParseCause::Markup(e))),
                    Ok(text) => match content_commands(state.tag, state.attributes, text) {
                        Ok(commands) => Step::Continue(
                            TranslatorModel { out: state.out + commands, ..state },
                        ),
                        Err(e) => Step::Failed(e),
                    },
                }
            }
        },
        EventModel::End { name } => {
            if is_root(name) {
                Step::Done
            } else {
                Step::Continue(state)
            }
        },
        EventModel::Eof => Step::Done,
        EventModel::Other => Step::Continue(state),
        EventModel::Malformed { cause } => Step::Failed(
            TranslationError::ParseError(ParseCause::Markup(cause)),
        ),
    }
}

/// The buffer that the events produce from `state` on: the translation
/// stops at the first event that ends the document or fails, and a buffer
/// that is handed out ends with the cut command.
pub open spec fn run(state: TranslatorModel, events: Seq<EventModel>) -> Result<
    Seq<u8>,
    TranslationError,
>
    decreases events.len(),
{
    if events.len() == 0 {
        Ok(state.out + cut_command())
    } else {
        match step(state, events[0]) {
            Step::Continue(next) => run(next, events.skip(1)),
            Step::Done => Ok(state.out + cut_command()),
            Step::Failed(e) => Err(e),
        }
    }
}

/// The command buffer for a document with the given events.
pub open spec fn translation(events: Seq<EventModel>) -> Result<Seq<u8>, TranslationError> {
    run(initial_state(), events)
}

/// The events of a document in plain form.
pub open spec fn markup_events(text: Seq<char>) -> Seq<EventModel> {
    document_events(text).map_values(|raw: Result<RawEvent, quick_xml::Error>| decoded_event(raw))
}

/// The views of a list of events.
pub open spec fn event_models(events: Seq<MarkupEvent>) -> Seq<EventModel> {
    events.map_values(|e: MarkupEvent| e@)
}

/// What a translation yields, the buffer taken by its view.
pub open spec fn buffer_outcome(result: Result<Vec<u8>, TranslationError>) -> Result<
    Seq<u8>,
    TranslationError,
> {
    match result {
        Ok(buffer) => Ok(buffer@),
        Err(e) => Err(e),
    }
}

/// `suffix` is the tail of `bytes`.
pub open spec fn is_suffix_of_bytes(suffix: Seq<u8>, bytes: Seq<u8>) -> bool {
    suffix.len() <= bytes.len() && bytes.subrange(bytes.len() - suffix.len(), bytes.len() as int)
        == suffix
}

/// The view of an optional text.
pub open spec fn optional_text(text: Option<&String>) -> Option<Seq<char>> {
    match text {
        Some(t) => Some(t@),
        None => None,
    }
}

/// An event leaves what the buffer holds in place: it appends or does nothing.
pub proof fn lemma_step_appends(state: TranslatorModel, event: EventModel)
    ensures
        step(state, event) matches Step::Continue(next) ==> state.out.is_prefix_of(next.out),
{
    match step(state, event) {
        Step::Continue(next) => {
            assert(state.out.len() <= next.out.len());
            assert(next.out.subrange(0, state.out.len() as int) == state.out);
        },
        _ => {},
    }
}

/// From a buffer that begins with the reset command, a translation hands
/// out one that begins with it as well, and ends with the cut command.
pub proof fn lemma_run_is_framed(state: TranslatorModel, events: Seq<EventModel>)
    requires
        init_command().is_prefix_of(state.out),
    ensures
        run(state, events) matches Ok(buffer) ==> init_command().is_prefix_of(buffer)
            && is_suffix_of_bytes(cut_command(), buffer),
    decreases events.len(),
{
    let ended = state.out + cut_command();
    assert(init_command().is_prefix_of(ended)) by {
        assert(ended.subrange(0, 2) == state.out.subrange(0, 2));
    }
    assert(is_suffix_of_bytes(cut_command(), ended)) by {
        assert(ended.subrange(ended.len() - 3, ended.len() as int) == cut_command());
    }
    if events.len() > 0 {
        match step(state, events[0]) {
            Step::Continue(next) => {
                lemma_step_appends(state, events[0]);
                assert(next.out.subrange(0, 2) == state.out.subrange(0, 2));
                lemma_run_is_framed(next, events.skip(1));
            },
            _ => {},
        }
    }
}

/// Every command buffer begins with the reset command and ends with the
/// cut command, whatever the document holds; an empty job gives the two
/// and nothing between them.
pub proof fn lemma_buffer_is_framed(events: Seq<EventModel>)
    ensures
        translation(events) matches Ok(buffer) ==> init_command().is_prefix_of(buffer)
            && is_suffix_of_bytes(cut_command(), buffer),
        translation(Seq::<EventModel>::empty()) == Ok::<Seq<u8>, TranslationError>(
            init_command() + cut_command(),
        ),
{
    assert(init_command().subrange(0, 2) == init_command());
    lemma_run_is_framed(initial_state(), events);
}

/// Inside the job, a text in an element named `text` appends the alignment
/// command that its `align` attribute selects, directly followed by the
/// bytes of the text and a line break. For `center` that command is
/// `1B 61 01`.
pub proof fn lemma_text_follows_its_alignment(state: TranslatorModel, text: Seq<char>)
    requires
        state.inside,
        local_name(state.tag) == "text"@,
    ensures
        step(state, EventModel::Text { content: Ok(text) }) == Step::Continue(
            TranslatorModel {
                out: state.out + (align_command(
                    alignment_named(attribute_value(state.attributes, "align"@)),
                ) + encode_utf8(text) + seq![LINE_BREAK]),
                ..state
            },
        ),
        attribute_value(state.attributes, "align"@) == Some("center"@) ==> align_command(
            alignment_named(attribute_value(state.attributes, "align"@)),
        ) == seq![0x1bu8, 0x61u8, 0x01u8],
{
    reveal_strlit("text");
    reveal_strlit("feed");
    assert("text"@ != "feed"@) by {
        assert("text"@[0] != "feed"@[0]);
    }
}

/// Inside the job, a text in an element named `feed` appends as many line
/// breaks as its `line` attribute states: three for `3`, and exactly one
/// where the attribute is absent.
pub proof fn lemma_feed_breaks_lines(state: TranslatorModel, text: Seq<char>)
    requires
        state.inside,
        local_name(state.tag) == "feed"@,
    ensures
        step(state, EventModel::Text { content: Ok(text) }) == Step::Continue(
            TranslatorModel {
                out: state.out + line_breaks(feed_count(state.attributes)),
                ..state
            },
        ),
        attribute_value(state.attributes, "line"@) == Some("3"@) ==> line_breaks(
            feed_count(state.attributes),
        ) == seq![LINE_BREAK, LINE_BREAK, LINE_BREAK],
        attribute_value(state.attributes, "line"@) is None ==> line_breaks(
            feed_count(state.attributes),
        ) == seq![LINE_BREAK],
{
    if attribute_value(state.attributes, "line"@) == Some("3"@) {
        reveal_strlit("3");
        let three = "3"@;
        assert(three.drop_last() == Seq::<char>::empty());
        assert(digits_value(three.drop_last(), 10) == Some(0nat));
        assert(digit_value(three.last(), 10) == Some(3nat));
        assert(digits_value(three, 10) == Some(3nat));
        assert(feed_count(state.attributes) == 3);
        assert(line_breaks(3) =~= seq![LINE_BREAK, LINE_BREAK, LINE_BREAK]);
    }
    if attribute_value(state.attributes, "line"@) is None {
        assert(line_breaks(1) =~= seq![LINE_BREAK]);
    }
}

/// Inside the job, an image whose bytes do not make up whole rows of the
/// stated height fails the translation with `ImageSizeMismatch`.
pub proof fn lemma_image_rows_must_be_whole(
    state: TranslatorModel,
    text: Seq<char>,
    rows: Seq<u8>,
    height: Seq<char>,
    h: nat,
)
    requires
        state.inside,
        local_name(state.tag) == "image"@,
        base64_decoded(trimmed(text)) == Ok::<Seq<u8>, base64::DecodeError>(rows),
        attribute_value(state.attributes, "height"@) == Some(height),
        unsigned_value(height, 10, usize::MAX as nat) == Some(h),
        h == 0 || rows.len() % h != 0,
    ensures
        step(state, EventModel::Text { content: Ok(text) }) == Step::Failed(
            TranslationError::ImageSizeMismatch { height: h as usize },
        ),
{
    lemma_unsigned_outcome(height, 10, usize::MAX as nat);
    reveal_strlit("image");
    reveal_strlit("text");
    reveal_strlit("feed");
    assert("image"@ != "feed"@) by {
        assert("image"@[0] != "feed"@[0]);
    }
    assert("image"@ != "text"@) by {
        assert("image"@[0] != "text"@[0]);
    }
}

/// Inside the job, an image of whole rows appends the raster header with
/// the width in bytes and the height, then the rows as they are.
pub proof fn lemma_image_is_header_then_rows(
    state: TranslatorModel,
    text: Seq<char>,
    rows: Seq<u8>,
    height: Seq<char>,
    h: nat,
)
    requires
        state.inside,
        local_name(state.tag) == "image"@,
        base64_decoded(trimmed(text)) == Ok::<Seq<u8>, base64::DecodeError>(rows),
        attribute_value(state.attributes, "height"@) == Some(height),
        unsigned_value(height, 10, usize::MAX as nat) == Some(h),
        h > 0,
        rows.len() % h == 0,
    ensures
        step(state, EventModel::Text { content: Ok(text) }) == Step::Continue(
            TranslatorModel {
                out: state.out + (raster_header(rows.len() / h, h) + rows),
                ..state
            },
        ),
{
    lemma_unsigned_outcome(height, 10, usize::MAX as nat);
    reveal_strlit("image");
    reveal_strlit("text");
    reveal_strlit("feed");
    assert("image"@ != "feed"@) by {
        assert("image"@[0] != "feed"@[0]);
    }
    assert("image"@ != "text"@) by {
        assert("image"@[0] != "text"@[0]);
    }
}

/// An opening tag inside the job makes its own attributes the current
/// ones: none of an earlier element stays.
pub proof fn lemma_attributes_are_replaced(
    state: TranslatorModel,
    name: Seq<char>,
    attributes: Seq<(Seq<char>, Seq<char>)>,
)
    requires
        state.inside || is_root(name),
    ensures
        step(state, EventModel::Start { name, attributes: Ok(attributes) }) matches Step::Continue(
            next,
        ) && next.attributes == attributes && next.tag == name && next.out == state.out,
{
}

/// Finds the value of the attribute `key`.
pub fn find_attribute<'a>(attributes: &'a Vec<MarkupAttribute>, key: &str) -> (value: Option<
    &'a String,
>)
    ensures
        optional_text(value) == attribute_value(attribute_pairs(attributes@), key@),
{
    let ghost pairs = attribute_pairs(attributes@);
    let mut i: usize = attributes.len();
    assert(pairs.take(i as int) == pairs);
    while i > 0
        invariant
            i <= attributes.len(),
            pairs == attribute_pairs(attributes@),
            attribute_value(pairs, key@) == attribute_value(pairs.take(i as int), key@),
        decreases i,
    {
        proof {
            assert(pairs.take(i as int).drop_last() == pairs.take(i - 1));
            assert(pairs.take(i as int).last() == pairs[i - 1]);
        }
        if same_text(attributes[i - 1].key.as_str(), key) {
            return Some(&attributes[i - 1].value);
        }
        i -= 1;
    }
    None
}

/// Reads how many lines a `feed` element breaks.
pub fn feed_lines(attributes: &Vec<MarkupAttribute>) -> (count: usize)
    ensures
        count == feed_count(attribute_pairs(attributes@)),
{
    match find_attribute(attributes, "line") {
        Some(text) => match parse_size(text.as_str()) {
            Ok(n) => n,
            Err(_) => 1,
        },
        None => 1,
    }
}

/// Reads the alignment that a `text` element asks for.
pub fn text_alignment(attributes: &Vec<MarkupAttribute>) -> (alignment: Alignment)
    ensures
        alignment == alignment_named(attribute_value(attribute_pairs(attributes@), "align"@)),
{
    match find_attribute(attributes, "align") {
        Some(name) => if same_text(name.as_str(), "center") {
            Alignment::Center
        } else if same_text(name.as_str(), "right") {
            Alignment::Right
        } else {
            Alignment::Left
        },
        None => Alignment::Left,
    }
}

/// Appends the commands for an image of the bytes `rows` to `out`, or
/// fails and leaves `out` as it was.
pub fn append_image(out: &mut Vec<u8>, rows: &[u8], height: Option<&String>) -> (result: Result<
    (),
    TranslationError,
>)
    ensures
        match image_commands(rows@, optional_text(height)) {
            Ok(commands) => result is Ok && final(out)@ == old(out)@ + commands,
            Err(e) => result == Err::<(), TranslationError>(e) && final(out)@ == old(out)@,
        },
{
    let text = match height {
        Some(text) => text,
        None => {
            return Err(TranslationError::MissingAttribute);
        },
    };
    let rows_high = match parse_size(text.as_str()) {
        Ok(h) => h,
        Err(e) => {
            return Err(TranslationError::ParseError(ParseCause::Height(e)));
        },
    };
    if rows_high == 0 || rows.len() % rows_high != 0 {
        return Err(TranslationError::ImageSizeMismatch { height: rows_high });
    }
    append_raster(out, rows.len() / rows_high, rows_high, rows);
    Ok(())
}

/// A translation in progress.
pub struct Translator {
    inside: bool,
    tag: String,
    attributes: Vec<MarkupAttribute>,
    out: Vec<u8>,
}

impl View for Translator {
    type V = TranslatorModel;

    closed spec fn view(&self) -> TranslatorModel {
        TranslatorModel {
            inside: self.inside,
            tag: self.tag@,
            attributes: attribute_pairs(self.attributes@),
            out: self.out@,
        }
    }
}

impl Translator {
    /// Begins a translation: outside the job, with the reset command in the buffer.
    pub fn new() -> (translator: Translator)
        ensures
            translator@ == initial_state(),
    {
        let translator = Translator {
            inside: false,
            tag: String::new(),
            attributes: Vec::new(),
            out: new_buffer(),
        };
        assert(attribute_pairs(translator.attributes@) == Seq::<(Seq<char>, Seq<char>)>::empty());
        translator
    }

    /// Appends what a text inside the current element produces.
    fn interpret(&mut self, text: &str) -> (result: Result<(), TranslationError>)
        ensures
            match content_commands(old(self)@.tag, old(self)@.attributes, text@) {
                Ok(commands) => result is Ok && final(self)@ == (TranslatorModel {
                    out: old(self)@.out + commands,
                    ..old(self)@
                }),
                Err(e) => result == Err::<(), TranslationError>(e) && final(self)@ == old(self)@,
            },
    {
        let name = tail_after_last(self.tag.as_str(), '}');
        if spells(&name, "feed") {
            let count = feed_lines(&self.attributes);
            append_feed(&mut self.out, count);
            Ok(())
        } else if spells(&name, "text") {
            let alignment = text_alignment(&self.attributes);
            append_text(&mut self.out, alignment, text);
            Ok(())
        } else if spells(&name, "image") {
            match decode_base64(trim(text)) {
                Err(e) => Err(TranslationError::ParseError(ParseCause::Base64(e))),
                Ok(rows) => append_image(
                    &mut self.out,
                    rows.as_slice(),
                    find_attribute(&self.attributes, "height"),
                ),
            }
        } else {
            assert(self.out@ + Seq::<u8>::empty() == self.out@);
            Ok(())
        }
    }

    /// Takes one event of the document. Returns whether the document is
    /// over; on failure the translation is left as it was.
    pub fn apply(&mut self, event: MarkupEvent) -> (result: Result<bool, TranslationError>)
        ensures
            match step(old(self)@, event@) {
                Step::Continue(next) => result == Ok::<bool, TranslationError>(false)
                    && final(self)@ == next,
                Step::Done => result == Ok::<bool, TranslationError>(true)
                    && final(self)@ == old(self)@,
                Step::Failed(e) => result == Err::<bool, TranslationError>(e)
                    && final(self)@ == old(self)@,
            },
    {
        match event {
            MarkupEvent::Start { name, attributes } => {
                if self.inside || ends_with(name.as_str(), "epos-print") {
                    match attributes {
                        Ok(list) => {
                            self.inside = true;
                            self.tag = name;
                            self.attributes = list;
                            Ok(false)
                        },
                        Err(e) => Err(TranslationError::ParseError(ParseCause::Markup(e))),
                    }
                } else {
                    Ok(false)
                }
            },
            MarkupEvent::Text { content } => {
                if !self.inside {
                    Ok(false)
                } else {
                    match content {
                        Err(e) => Err(TranslationError::ParseError(ParseCause::Markup(e))),
                        Ok(text) => match self.interpret(text.as_str()) {
                            Ok(()) => Ok(false),
                            Err(e) => Err(e),
                        },
                    }
                }
            },
            MarkupEvent::End { name } => Ok(ends_with(name.as_str(), "epos-print")),
            MarkupEvent::Eof => Ok(true),
            MarkupEvent::Other => Ok(false),
            MarkupEvent::Malformed { cause } => Err(
                TranslationError::ParseError(ParseCause::Markup(cause)),
            ),
        }
    }

    /// Ends the translation: appends the cut command and hands out the buffer.
    pub fn finish(self) -> (out: Vec<u8>)
        ensures
            out@ == self@.out + cut_command(),
    {
        let mut out = self.out;
        append_cut(&mut out);
        out
    }
}

/// Translates the events of a document into a command buffer.
pub fn translate_events(events: Vec<MarkupEvent>) -> (result: Result<Vec<u8>, TranslationError>)
    ensures
        buffer_outcome(result) == translation(event_models(events@)),
{
    let ghost models = event_models(events@);
    let mut translator = Translator::new();
    assert(models.skip(0) == models);
    for event in it: events
        invariant
            it.seq() == events@,
            models == event_models(events@),
            run(translator@, models.skip(it.index())) == translation(models),
    {
        proof {
            let rest = models.skip(it.index());
            assert(rest[0] == event@);
            assert(rest.skip(1) == models.skip(it.index() + 1));
        }
        match translator.apply(event) {
            Err(e) => {
                return Err(e);
            },
            Ok(true) => {
                return Ok(translator.finish());
            },
            Ok(false) => {},
        }
    }
    Ok(translator.finish())
}

/// Translates a print job into the command buffer for the printer.
///
/// The result is the translation of the document's events, read to the
/// first that ends the document or fails.
pub fn generate_escpos_from_epos_xml(xml_text: &str) -> (result: Result<
    Vec<u8>,
    TranslationError,
>)
    ensures
        buffer_outcome(result) == translation(markup_events(xml_text@)),
{
    let mut reader = open_reader(xml_text);
    let mut translator = Translator::new();
    let ghost document = markup_events(xml_text@);
    loop
        invariant
            document == markup_events(xml_text@),
            run(
                translator@,
                pending_events(reader).map_values(
                    |raw: Result<RawEvent, quick_xml::Error>| decoded_event(raw),
                ),
            ) == translation(document),
        decreases pending_events(reader).len(),
    {
        let ghost pending = pending_events(reader);
        let ghost rest = pending.map_values(
            |raw: Result<RawEvent, quick_xml::Error>| decoded_event(raw),
        );
        let raw = next_event(&mut reader);
        let event = decode_event(raw);
        proof {
            if pending.len() > 0 {
                assert(rest[0] == event@);
                assert(rest.skip(1) == pending_events(reader).map_values(
                    |raw: Result<RawEvent, quick_xml::Error>| decoded_event(raw),
                ));
            }
        }
        match translator.apply(event) {
            Err(e) => {
                return Err(e);
            },
            Ok(true) => {
                return Ok(translator.finish());
            },
            Ok(false) => {},
        }
    }
}

} // verus!
