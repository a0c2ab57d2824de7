//! RSS 2.0 channel writer.

pub mod link;

use crate::clock::{is_representable, now_micros, representable, rfc2822, rfc2822_text};
use crate::feed::link::{prefix_of, Link};
use crate::text::{decimal, push_char, push_decimal, reserve};
use vstd::prelude::*;

verus! {

broadcast use vstd::string::group_string_axioms;

/// What stands for the character `c` in element text: the entity of each of
/// the five markup characters, and the character itself otherwise.
pub open spec fn entity(c: char) -> Seq<char> {
    if c == '&' {
        seq!['&', 'a', 'm', 'p', ';']
    } else if c == '<' {
        seq!['&', 'l', 't', ';']
    } else if c == '>' {
        seq!['&', 'g', 't', ';']
    } else if c == '"' {
        seq!['&', 'q', 'u', 'o', 't', ';']
    } else if c == '\'' {
        seq!['&', 'a', 'p', 'o', 's', ';']
    } else {
        seq![c]
    }
}

/// The escaped form of `s`: one pass from left to right over `s` itself, each
/// character replaced by its [`entity`].
pub open spec fn escaped(s: Seq<char>) -> Seq<char>
    decreases s.len(),
{
    if s.len() == 0 {
        Seq::empty()
    } else {
        escaped(s.drop_last()) + entity(s.last())
    }
}

/// The four characters that never stand in escaped text.
pub open spec fn is_markup(c: char) -> bool {
    c == '<' || c == '>' || c == '"' || c == '\''
}

/// The five characters that an entity stands for.
pub open spec fn is_special(c: char) -> bool {
    c == '&' || is_markup(c)
}

/// An entity begins at position `at` of `text`.
pub open spec fn entity_at(text: Seq<char>, at: int) -> bool {
    exists|c: char|
        is_special(c) && 0 <= at && at + entity(c).len() <= text.len() && #[trigger] text.subrange(
            at,
            at + entity(c).len(),
        ) == entity(c)
}

/// Escaping goes character by character: the escaped form of two texts in a
/// row is the escaped form of the first, then that of the second.
pub proof fn escaped_of_concat(a: Seq<char>, b: Seq<char>)
    ensures
        escaped(a + b) == escaped(a) + escaped(b),
    decreases b.len(),
{
    if b.len() > 0 {
        assert((a + b).drop_last() =~= a + b.drop_last());
        escaped_of_concat(a, b.drop_last());
    }
}

/// Escaped text holds none of `<`, `>`, `"` and `'`, and each `&` in it
/// begins an entity.
pub proof fn escaped_is_clean(s: Seq<char>, at: int)
    requires
        0 <= at < escaped(s).len(),
    ensures
        !is_markup(escaped(s)[at]),
        escaped(s)[at] == '&' ==> entity_at(escaped(s), at),
    decreases s.len(),
{
    let head = escaped(s.drop_last());
    let tail = entity(s.last());
    let whole = escaped(s);
    if at < head.len() {
        escaped_is_clean(s.drop_last(), at);
        if head[at] == '&' {
            let c = choose|c: char|
                is_special(c) && 0 <= at && at + entity(c).len() <= head.len()
                    && #[trigger] head.subrange(at, at + entity(c).len()) == entity(c);
            assert(whole.subrange(at, at + entity(c).len()) =~= head.subrange(
                at,
                at + entity(c).len(),
            ));
        }
    } else {
        let k = at - head.len();
        if tail[k] == '&' {
            assert(whole.subrange(at, at + tail.len()) =~= tail);
        }
    }
}

/// The escaped form of a text that is not empty begins with the entity of
/// its first character.
proof fn escaped_from_front(s: Seq<char>)
    requires
        s.len() > 0,
    ensures
        escaped(s) == entity(s.first()) + escaped(s.drop_first()),
{
    let head = seq![s.first()];
    assert(escaped(head.drop_last()) =~= Seq::<char>::empty());
    assert(escaped(head) =~= entity(s.first()));
    assert(head + s.drop_first() =~= s);
    escaped_of_concat(head, s.drop_first());
}

/// Two characters with entities that begin alike are the same character.
proof fn entity_tells_character(x: char, y: char, rest_x: Seq<char>, rest_y: Seq<char>)
    requires
        entity(x) + rest_x == entity(y) + rest_y,
    ensures
        x == y,
{
    let text = entity(x) + rest_x;
    assert(text[0] == entity(x)[0]);
    assert(text[0] == (entity(y) + rest_y)[0]);
    assert((entity(y) + rest_y)[0] == entity(y)[0]);
    if is_special(x) {
        assert(is_special(y));
        assert(text[1] == entity(x)[1] && text[2] == entity(x)[2]);
        assert((entity(y) + rest_y)[1] == entity(y)[1]);
        assert((entity(y) + rest_y)[2] == entity(y)[2]);
    }
}

/// Escaping loses nothing: texts with the same escaped form are the same
/// text.
pub proof fn escaped_is_injective(a: Seq<char>, b: Seq<char>)
    requires
        escaped(a) == escaped(b),
    ensures
        a == b,
    decreases a.len(),
{
    if a.len() == 0 {
        if b.len() > 0 {
            escaped_from_front(b);
        }
        assert(a =~= b);
    } else {
        escaped_from_front(a);
        if b.len() == 0 {
            assert(escaped(a).len() > 0);
        } else {
            escaped_from_front(b);
            let rest_a = escaped(a.drop_first());
            let rest_b = escaped(b.drop_first());
            entity_tells_character(a.first(), b.first(), rest_a, rest_b);
            let lead = entity(a.first());
            let whole = escaped(a);
            assert(rest_a =~= whole.subrange(lead.len() as int, whole.len() as int));
            assert(rest_b =~= whole.subrange(lead.len() as int, whole.len() as int));
            escaped_is_injective(a.drop_first(), b.drop_first());
            assert(a =~= seq![a.first()] + a.drop_first());
            assert(b =~= seq![b.first()] + b.drop_first());
        }
    }
}

/// Appends the entity of `c` to `out`.
fn push_entity(out: &mut String, c: char)
    ensures
        final(out)@ == old(out)@ + entity(c),
{
    if c == '&' {
        proof {
            reveal_strlit("&amp;");
        }
        out.append("&amp;");
    } else if c == '<' {
        proof {
            reveal_strlit("&lt;");
        }
        out.append("&lt;");
    } else if c == '>' {
        proof {
            reveal_strlit("&gt;");
        }
        out.append("&gt;");
    } else if c == '"' {
        proof {
            reveal_strlit("&quot;");
        }
        out.append("&quot;");
    } else if c == '\'' {
        proof {
            reveal_strlit("&apos;");
        }
        out.append("&apos;");
    } else {
        push_char(out, c);
    }
}

/// Appends the escaped form of `value` to `out`.
fn push_escaped(out: &mut String, value: &str)
    ensures
        final(out)@ == old(out)@ + escaped(value@),
{
    for c in it: value.chars()
        invariant
            it.seq() == value@,
            out@ == old(out)@ + escaped(value@.take(it.index() as int)),
    {
        proof {
            let k = it.index() as int;
            assert(value@.take(k + 1).drop_last() =~= value@.take(k));
        }
        push_entity(out, c);
    }
    assert(value@.take(value@.len() as int) =~= value@);
}

/// Escapes `value` for use as element text.
pub fn escape(value: &str) -> (r: String)
    ensures
        r@ == escaped(value@),
{
    let mut out = String::new();
    push_escaped(&mut out, value);
    out
}

/// One element: the opening tag, the text, the closing tag.
pub open spec fn element(open: Seq<char>, text: Seq<char>, close: Seq<char>) -> Seq<char> {
    open + text + close
}

/// The element of an optional text, escaped: nothing where the text is
/// absent.
pub open spec fn optional_element(
    open: Seq<char>,
    text: Option<Seq<char>>,
    close: Seq<char>,
) -> Seq<char> {
    match text {
        Some(t) => element(open, escaped(t), close),
        None => Seq::empty(),
    }
}

/// The document up to the first item: the prologue, the two dates of the
/// channel (both `date`), its title, and its description and link where
/// there are any. Every text is escaped.
pub open spec fn opening(
    title: Seq<char>,
    description: Option<Seq<char>>,
    canonical: Option<Seq<char>>,
    date: Seq<char>,
) -> Seq<char> {
    "<?xml version=\"1.0\" encoding=\"UTF-8\"?><rss version=\"2.0\"><channel>"@
        + element("<pubDate>"@, escaped(date), "</pubDate>"@)
        + element("<lastBuildDate>"@, escaped(date), "</lastBuildDate>"@)
        + element("<title>"@, escaped(title), "</title>"@)
        + optional_element("<description>"@, description, "</description>"@)
        + optional_element("<link>"@, canonical, "</link>"@)
}

/// One item: its key as `guid`, its title, its link (the channel's prefix,
/// then the key), its message as description, and its date. Title, message
/// and date are escaped; the prefix was escaped when it was made.
pub open spec fn item(
    prefix: Seq<char>,
    guid: int,
    title: Seq<char>,
    message: Seq<char>,
    date: Seq<char>,
) -> Seq<char> {
    "<item>"@
        + element("<guid>"@, decimal(guid), "</guid>"@)
        + element("<title>"@, escaped(title), "</title>"@)
        + element("<link>"@, prefix + decimal(guid), "</link>"@)
        + element("<description>"@, escaped(message), "</description>"@)
        + element("<pubDate>"@, escaped(date), "</pubDate>"@)
        + "</item>"@
}

/// What closes the document.
pub open spec fn closing() -> Seq<char> {
    "</channel></rss>"@
}

/// Appends an element whose text is written as it is.
fn push_element(out: &mut String, open: &str, text: &str, close: &str)
    ensures
        final(out)@ == old(out)@ + element(open@, text@, close@),
{
    out.append(open);
    out.append(text);
    out.append(close);
}

/// Appends an element whose text is escaped.
fn push_escaped_element(out: &mut String, open: &str, text: &str, close: &str)
    ensures
        final(out)@ == old(out)@ + element(open@, escaped(text@), close@),
{
    out.append(open);
    push_escaped(out, text);
    out.append(close);
}

/// An RSS 2.0 document under construction: the text written so far, and the
/// link prefix of its items. A feed is opened once, takes items in the order
/// of the calls, and is closed by [`Feed::commit`], which consumes it.
pub struct Feed {
    buffer: String,
    canonical: Link,
}

impl Feed {
    /// The text written so far.
    pub closed spec fn text(&self) -> Seq<char> {
        self.buffer@
    }

    /// The prefix of the link of each item.
    pub closed spec fn prefix(&self) -> Seq<char> {
        self.canonical@
    }

    /// That this feed was just opened with both channel dates at the time
    /// stamp `built`.
    pub open spec fn opened_at(
        &self,
        title: Seq<char>,
        description: Option<Seq<char>>,
        canonical: Option<Seq<char>>,
        built: int,
    ) -> bool {
        &&& representable(built)
        &&& self.text() == opening(title, description, canonical, rfc2822_text(built))
        &&& self.prefix() == prefix_of(canonical)
    }

    /// That this feed was just opened, at some time stamp that RFC 2822 can
    /// write.
    pub open spec fn opened(
        &self,
        title: Seq<char>,
        description: Option<Seq<char>>,
        canonical: Option<Seq<char>>,
    ) -> bool {
        exists|built: int| self.opened_at(title, description, canonical, built)
    }

    /// Opens a channel dated by the system clock. Returns nothing where the
    /// clock stands outside the years that RFC 2822 can write.
    pub fn new(
        title: &str,
        description: Option<&str>,
        canonical: Option<&str>,
        capacity: usize,
    ) -> (r: Option<Feed>)
        ensures
            r matches Some(feed) ==> feed.opened(
                title@,
                description.deep_view(),
                canonical.deep_view(),
            ),
    {
        let built: i64 = now_micros();
        let r = Feed::at_or_none(title, description, canonical, capacity, built);
        assert(r matches Some(feed) ==> feed.opened_at(
            title@,
            description.deep_view(),
            canonical.deep_view(),
            built as int,
        ));
        r
    }

    /// Opens a channel whose two dates are the time stamp `built`, where RFC
    /// 2822 can write that time stamp, and returns nothing where it cannot.
    pub fn at_or_none(
        title: &str,
        description: Option<&str>,
        canonical: Option<&str>,
        capacity: usize,
        built: i64,
    ) -> (r: Option<Feed>)
        ensures
            representable(built as int) ==> (r matches Some(feed) && feed.opened_at(
                title@,
                description.deep_view(),
                canonical.deep_view(),
                built as int,
            )),
            !representable(built as int) ==> r is None,
    {
        if is_representable(built) {
            Some(Feed::at(title, description, canonical, capacity, built))
        } else {
            None
        }
    }

    /// Opens a channel whose two dates are the time stamp `built`.
    pub fn at(
        title: &str,
        description: Option<&str>,
        canonical: Option<&str>,
        capacity: usize,
        built: i64,
    ) -> (feed: Feed)
        requires
            representable(built as int),
        ensures
            feed.opened_at(title@, description.deep_view(), canonical.deep_view(), built as int),
    {
        let date = rfc2822(built);
        let prefix = Link::from_url(canonical);
        Feed::open(title, description, canonical, prefix, date.as_str(), capacity)
    }

    /// Opens a channel from a date text and a link prefix that were computed
    /// before. Room for `capacity` bytes is asked for at once; the document
    /// may grow beyond it.
    pub fn open(
        title: &str,
        description: Option<&str>,
        canonical: Option<&str>,
        prefix: Link,
        date: &str,
        capacity: usize,
    ) -> (feed: Feed)
        ensures
            feed.text() == opening(title@, description.deep_view(), canonical.deep_view(), date@),
            feed.prefix() == prefix@,
    {
        let mut buffer = String::new();
        reserve(&mut buffer, capacity);
        buffer.append("<?xml version=\"1.0\" encoding=\"UTF-8\"?><rss version=\"2.0\"><channel>");
        push_escaped_element(&mut buffer, "<pubDate>", date, "</pubDate>");
        push_escaped_element(&mut buffer, "<lastBuildDate>", date, "</lastBuildDate>");
        push_escaped_element(&mut buffer, "<title>", title, "</title>");
        if let Some(d) = description {
            push_escaped_element(&mut buffer, "<description>", d, "</description>");
        }
        if let Some(c) = canonical {
            push_escaped_element(&mut buffer, "<link>", c, "</link>");
        }
        assert(buffer@ =~= opening(
            title@,
            description.deep_view(),
            canonical.deep_view(),
            date@,
        ));
        Feed { buffer, canonical: prefix }
    }

    /// Appends the item of the post `guid`, dated by the time stamp `time`.
    pub fn push(&mut self, guid: i64, time: i64, title: String, message: &str)
        requires
            representable(time as int),
        ensures
            final(self).text() == old(self).text() + item(
                old(self).prefix(),
                guid as int,
                title@,
                message@,
                rfc2822_text(time as int),
            ),
            final(self).prefix() == old(self).prefix(),
    {
        let date = rfc2822(time);
        self.push_dated(guid, date.as_str(), title, message);
    }

    /// Appends the item of the post `guid` with the date text `date`.
    pub fn push_dated(&mut self, guid: i64, date: &str, title: String, message: &str)
        ensures
            final(self).text() == old(self).text() + item(
                old(self).prefix(),
                guid as int,
                title@,
                message@,
                date@,
            ),
            final(self).prefix() == old(self).prefix(),
    {
        let mut key = String::new();
        push_decimal(&mut key, guid);
        let link = self.canonical.link(guid);
        self.buffer.append("<item>");
        push_element(&mut self.buffer, "<guid>", key.as_str(), "</guid>");
        push_escaped_element(&mut self.buffer, "<title>", title.as_str(), "</title>");
        push_element(&mut self.buffer, "<link>", link.as_str(), "</link>");
        push_escaped_element(&mut self.buffer, "<description>", message, "</description>");
        push_escaped_element(&mut self.buffer, "<pubDate>", date, "</pubDate>");
        self.buffer.append("</item>");
        assert(self.buffer@ =~= old(self).buffer@ + item(
            old(self).prefix(),
            guid as int,
            title@,
            message@,
            date@,
        ));
    }

    /// Closes the document and returns it.
    pub fn commit(self) -> (r: String)
        ensures
            r@ == self.text() + closing(),
    {
        let mut buffer = self.buffer;
        buffer.append("</channel></rss>");
        buffer
    }
}

} // verus!
