//! The parts of a message: text and images.

use vstd::prelude::*;
use crate::decode::{required_text, text_of};
use crate::error::{Error, ErrorView};
use crate::image::{base64, is_data_url};
use crate::json::{lemma_view_unfold, member_views, Json, JsonView};
use crate::utils::token_count;

verus! {

/// An image, as a base64 data URL.
#[derive(Debug, Clone, PartialEq, Eq)]
pub struct Image {
    pub url: String,
}

/// One part of a message.
#[derive(Debug, Clone, PartialEq, Eq)]
pub enum Content {
    Text {
        /// The message text
        text: String,
    },
    Image {
        /// The image base64 url
        image: Image,
        /// The image detail level (low/high/auto)
        detail: Option<String>,
    },
}

/// The mathematical value of a part.
pub ghost enum ContentView {
    Text { text: Seq<char> },
    Image { url: Seq<char>, detail: Option<Seq<char>> },
}

/// The value of a text that may be missing.
pub open spec fn option_view(text: Option<String>) -> Option<Seq<char>> {
    match text {
        Some(text) => Some(text@),
        None => None,
    }
}

impl View for Content {
    type V = ContentView;

    open spec fn view(&self) -> ContentView {
        match self {
            Content::Text { text } => ContentView::Text { text: text@ },
            Content::Image { image, detail } => ContentView::Image {
                url: image.url@,
                detail: option_view(*detail),
            },
        }
    }
}

/// The values of a sequence of parts.
pub open spec fn content_views(content: Seq<Content>) -> Seq<ContentView> {
    Seq::new(content.len(), |i: int| content[i]@)
}

/// The token cost of an image. It goes by the detail level alone: 170 for
/// `high`, 110 for `auto`, 85 for any other level and for none.
pub open spec fn image_cost(detail: Option<Seq<char>>) -> nat {
    match detail {
        Some(level) => if level == "high"@ {
            170
        } else if level == "auto"@ {
            110
        } else {
            85
        },
        None => 85,
    }
}

impl ContentView {
    /// The token cost of a part: the number of tokens of a text, the fixed
    /// cost of an image. A text that cannot be tokenised has none.
    pub open spec fn cost(self) -> Option<nat> {
        match self {
            ContentView::Text { text } => token_count(text),
            ContentView::Image { url, detail } => Some(image_cost(detail)),
        }
    }
}

/// Every part has a token cost.
pub open spec fn countable(content: Seq<ContentView>) -> bool {
    forall|i: int| 0 <= i < content.len() ==> (#[trigger] content[i]).cost() is Some
}

/// The token cost of parts together: the sum of their costs.
pub open spec fn content_cost(content: Seq<ContentView>) -> nat
    decreases content.len(),
{
    if content.len() == 0 {
        0
    } else {
        content_cost(content.drop_last()) + match content.last().cost() {
            Some(cost) => cost,
            None => 0,
        }
    }
}

/// The first parts cost no more than all of them.
pub proof fn lemma_content_cost_prefix(content: Seq<ContentView>, n: int)
    requires
        0 <= n <= content.len(),
    ensures
        content_cost(content.take(n)) <= content_cost(content),
    decreases content.len() - n,
{
    if n < content.len() {
        lemma_content_cost_prefix(content, n + 1);
        assert(content.take(n + 1).drop_last() =~= content.take(n));
    } else {
        assert(content.take(n) =~= content);
    }
}

impl Content {
    /// Creates a text part.
    pub fn text(text: &str) -> (r: Self)
        ensures
            r@ == (ContentView::Text { text: text@ }),
    {
        Content::Text { text: String::from_str(text) }
    }

    /// Creates an image part from a base64 data URL, which is checked.
    pub fn image_url(base64_url: &str, detail: Option<String>) -> (r: Result<Self, Error>)
        ensures
            match r {
                Ok(content) => is_data_url(base64_url@) && content@ == (ContentView::Image {
                    url: base64_url@,
                    detail: option_view(detail),
                }),
                Err(error) => !is_data_url(base64_url@) && error@ == ErrorView::InvalidBase64Url,
            },
    {
        match base64(base64_url) {
            Ok(url) => Ok(Content::Image { image: Image { url }, detail }),
            Err(error) => Err(error),
        }
    }

    /// The token cost of an image of this detail level.
    pub fn image_tokens(detail: &Option<String>) -> (r: usize)
        ensures
            r == image_cost(option_view(*detail)),
    {
        match detail {
            Some(level) => {
                if level.as_str().eq("high") {
                    170
                } else if level.as_str().eq("auto") {
                    110
                } else {
                    85
                }
            },
            None => 85,
        }
    }
}

impl From<String> for Content {
    /// A text part of the text.
    fn from(value: String) -> (r: Content)
        ensures
            r == (Content::Text { text: value }),
    {
        Content::Text { text: value }
    }
}

impl vstd::std_specs::convert::FromSpecImpl<String> for Content {
    open spec fn obeys_from_spec() -> bool {
        true
    }

    open spec fn from_spec(value: String) -> Content {
        Content::Text { text: value }
    }
}

impl From<&str> for Content {
    /// A text part of the text.
    fn from(value: &str) -> (r: Content)
        ensures
            r@ == (ContentView::Text { text: value@ }),
    {
        Content::text(value)
    }
}

impl vstd::std_specs::convert::FromSpecImpl<&str> for Content {
    open spec fn obeys_from_spec() -> bool {
        false
    }

    open spec fn from_spec(value: &str) -> Content {
        arbitrary()
    }
}

/// A member of the document of a part.
#[derive(Debug, Clone, Copy, PartialEq, Eq, Structural)]
pub enum ContentField {
    Type,
    Text,
    ImageUrl,
    Detail,
}

/// Why a document is not the document of a part.
#[derive(Debug, Clone, PartialEq, Eq)]
pub enum ContentError {
    /// The document is no object.
    NotAnObject,
    /// A member occurs twice.
    DuplicateField(ContentField),
    /// A member has another type than the part asks for.
    InvalidField(ContentField),
    /// A member that the part needs is missing.
    MissingField(ContentField),
    /// The type is neither `text` nor `image_url`.
    UnknownType(String),
}

/// The mathematical value of such a failure.
pub ghost enum ContentErrorView {
    NotAnObject,
    DuplicateField(ContentField),
    InvalidField(ContentField),
    MissingField(ContentField),
    UnknownType(Seq<char>),
}

impl View for ContentError {
    type V = ContentErrorView;

    open spec fn view(&self) -> ContentErrorView {
        match self {
            ContentError::NotAnObject => ContentErrorView::NotAnObject,
            ContentError::DuplicateField(field) => ContentErrorView::DuplicateField(*field),
            ContentError::InvalidField(field) => ContentErrorView::InvalidField(*field),
            ContentError::MissingField(field) => ContentErrorView::MissingField(*field),
            ContentError::UnknownType(kind) => ContentErrorView::UnknownType(kind@),
        }
    }
}

/// The members of the document of a part that have been read.
pub ghost struct ContentFields {
    pub kind: Option<Seq<char>>,
    pub text: Option<Seq<char>>,
    pub url: Option<Seq<char>>,
    pub detail: Option<Seq<char>>,
}

/// A text member that is read for the first time.
pub open spec fn fresh_text(
    seen: Option<Seq<char>>,
    value: Option<Seq<char>>,
    field: ContentField,
) -> Result<Option<Seq<char>>, ContentErrorView> {
    if seen is Some {
        Err(ContentErrorView::DuplicateField(field))
    } else if value is None {
        Err(ContentErrorView::InvalidField(field))
    } else {
        Ok(value)
    }
}

/// The text of a string document.
pub open spec fn as_text(value: JsonView) -> Option<Seq<char>> {
    match value {
        JsonView::Text(text) => Some(text),
        _ => None,
    }
}

/// What is read after one more member. The members `type`, `text`,
/// `image_url` and `detail` may each occur once; `image_url` is an object
/// with a `url`, the others are strings. Other members are passed over.
pub open spec fn take_member(fields: ContentFields, key: Seq<char>, value: JsonView) -> Result<
    ContentFields,
    ContentErrorView,
> {
    if key == "type"@ {
        match fresh_text(fields.kind, as_text(value), ContentField::Type) {
            Ok(kind) => Ok(ContentFields { kind, ..fields }),
            Err(e) => Err(e),
        }
    } else if key == "text"@ {
        match fresh_text(fields.text, as_text(value), ContentField::Text) {
            Ok(text) => Ok(ContentFields { text, ..fields }),
            Err(e) => Err(e),
        }
    } else if key == "image_url"@ {
        match fresh_text(fields.url, required_text(value, "url"@), ContentField::ImageUrl) {
            Ok(url) => Ok(ContentFields { url, ..fields }),
            Err(e) => Err(e),
        }
    } else if key == "detail"@ {
        match fresh_text(fields.detail, as_text(value), ContentField::Detail) {
            Ok(detail) => Ok(ContentFields { detail, ..fields }),
            Err(e) => Err(e),
        }
    } else {
        Ok(fields)
    }
}

/// What is read of the members of a document, taken in order; the first
/// member that cannot be taken fails the reading.
pub open spec fn take_members(members: Seq<(Seq<char>, JsonView)>) -> Result<
    ContentFields,
    ContentErrorView,
>
    decreases members.len(),
{
    if members.len() == 0 {
        Ok(ContentFields { kind: None, text: None, url: None, detail: None })
    } else {
        match take_members(members.drop_last()) {
            Ok(fields) => take_member(fields, members.last().0, members.last().1),
            Err(e) => Err(e),
        }
    }
}

/// A reading that fails on the first members fails so on all of them.
pub proof fn lemma_take_members_fails(members: Seq<(Seq<char>, JsonView)>, n: int)
    requires
        0 <= n <= members.len(),
        take_members(members.take(n)) is Err,
    ensures
        take_members(members) == take_members(members.take(n)),
    decreases members.len() - n,
{
    if n < members.len() {
        assert(members.take(n + 1).drop_last() =~= members.take(n));
        lemma_take_members_fails(members, n + 1);
    } else {
        assert(members.take(n) =~= members);
    }
}

/// The part that the members make: a text part needs `text`, an image part
/// needs `image_url` and may have a `detail`.
pub open spec fn content_of(fields: ContentFields) -> Result<ContentView, ContentErrorView> {
    match fields.kind {
        None => Err(ContentErrorView::MissingField(ContentField::Type)),
        Some(kind) => if kind == "text"@ {
            match fields.text {
                Some(text) => Ok(ContentView::Text { text }),
                None => Err(ContentErrorView::MissingField(ContentField::Text)),
            }
        } else if kind == "image_url"@ {
            match fields.url {
                Some(url) => Ok(ContentView::Image { url, detail: fields.detail }),
                None => Err(ContentErrorView::MissingField(ContentField::ImageUrl)),
            }
        } else {
            Err(ContentErrorView::UnknownType(kind))
        },
    }
}

/// The part that a document stands for.
pub open spec fn read_content(doc: JsonView) -> Result<ContentView, ContentErrorView> {
    match doc {
        JsonView::Object(members) => match take_members(members) {
            Ok(fields) => content_of(fields),
            Err(e) => Err(e),
        },
        _ => Err(ContentErrorView::NotAnObject),
    }
}

impl Content {
    /// Reads a part from its document.
    pub fn from_json(doc: &Json) -> (r: Result<Content, ContentError>)
        ensures
            match r {
                Ok(content) => read_content(doc@) == Ok::<ContentView, ContentErrorView>(content@),
                Err(error) => read_content(doc@) == Err::<ContentView, ContentErrorView>(error@),
            },
    {
        let members = match doc {
            Json::Object(members) => members,
            _ => {
                return Err(ContentError::NotAnObject);
            },
        };
        proof {
            lemma_view_unfold(*doc);
        }
        let ghost all = member_views(members@);
        let mut kind: Option<&String> = None;
        let mut text: Option<&String> = None;
        let mut url: Option<&String> = None;
        let mut detail: Option<&String> = None;
        let mut i: usize = 0;
        assert(all.take(0) =~= Seq::empty());
        while i < members.len()
            invariant
                i <= members@.len(),
                all == member_views(members@),
                doc@ == JsonView::Object(all),
                take_members(all.take(i as int)) == Ok::<ContentFields, ContentErrorView>(
                    ContentFields {
                        kind: borrowed_view(kind),
                        text: borrowed_view(text),
                        url: borrowed_view(url),
                        detail: borrowed_view(detail),
                    },
                ),
            decreases members@.len() - i,
        {
            proof {
                assert(all.take(i + 1).drop_last() =~= all.take(i as int));
                assert(all.take(i + 1).last() == (members@[i as int].0@, members@[i as int].1@));
            }
            let key = members[i].0.as_str();
            let value = &members[i].1;
            let mut failed: Option<ContentError> = None;
            if key.eq("type") {
                if kind.is_some() {
                    failed = Some(ContentError::DuplicateField(ContentField::Type));
                } else {
                    match value.as_text() {
                        Some(t) => {
                            kind = Some(t);
                        },
                        None => {
                            failed = Some(ContentError::InvalidField(ContentField::Type));
                        },
                    }
                }
            } else if key.eq("text") {
                if text.is_some() {
                    failed = Some(ContentError::DuplicateField(ContentField::Text));
                } else {
                    match value.as_text() {
                        Some(t) => {
                            text = Some(t);
                        },
                        None => {
                            failed = Some(ContentError::InvalidField(ContentField::Text));
                        },
                    }
                }
            } else if key.eq("image_url") {
                if url.is_some() {
                    failed = Some(ContentError::DuplicateField(ContentField::ImageUrl));
                } else {
                    match text_of(value, "url") {
                        Some(t) => {
                            url = Some(t);
                        },
                        None => {
                            failed = Some(ContentError::InvalidField(ContentField::ImageUrl));
                        },
                    }
                }
            } else if key.eq("detail") {
                if detail.is_some() {
                    failed = Some(ContentError::DuplicateField(ContentField::Detail));
                } else {
                    match value.as_text() {
                        Some(t) => {
                            detail = Some(t);
                        },
                        None => {
                            failed = Some(ContentError::InvalidField(ContentField::Detail));
                        },
                    }
                }
            }
            match failed {
                Some(error) => {
                    proof {
                        assert(take_members(all.take(i + 1)) == Err::<
                            ContentFields,
                            ContentErrorView,
                        >(error@));
                        lemma_take_members_fails(all, i + 1);
                    }
                    return Err(error);
                },
                None => {},
            }
            i += 1;
        }
        assert(all.take(i as int) =~= all);
        match kind {
            None => Err(ContentError::MissingField(ContentField::Type)),
            Some(kind) => {
                if kind.as_str().eq("text") {
                    match text {
                        Some(text) => Ok(Content::Text { text: text.clone() }),
                        None => Err(ContentError::MissingField(ContentField::Text)),
                    }
                } else if kind.as_str().eq("image_url") {
                    match url {
                        Some(url) => Ok(
                            Content::Image {
                                image: Image { url: url.clone() },
                                detail: match detail {
                                    Some(level) => Some(level.clone()),
                                    None => None,
                                },
                            },
                        ),
                        None => Err(ContentError::MissingField(ContentField::ImageUrl)),
                    }
                } else {
                    Err(ContentError::UnknownType(kind.clone()))
                }
            },
        }
    }
}

/// The value of a borrowed text that may be missing.
pub open spec fn borrowed_view(text: Option<&String>) -> Option<Seq<char>> {
    match text {
        Some(text) => Some(text@),
        None => None,
    }
}

} // verus!
