//! The notification renderer: builds the structured content of a new
//! notification from a fault summary, an ordered list of contextual fields,
//! and optional attribution.
//!
//! Every field value is wrapped in code-style emphasis, except the designated
//! invisible spacer value, which is rendered without added formatting. A new
//! notification carries the footer for a single occurrence; on later
//! occurrences the coordinator rewrites the footer with the live count.

use vstd::prelude::*;

verus! {

/// The colour of a fault notification.
pub const RED: u32 = 0xFF0000;

/// One contextual display field: label, value, and whether it is laid out
/// inline.
pub struct Field {
    pub name: String,
    pub value: String,
    pub inline: bool,
}

/// Attribution shown on a notification: an actor's name and an optional
/// icon reference.
pub struct Attribution {
    pub name: String,
    pub icon_url: Option<String>,
}

/// The structured content of a notification.
pub struct NotificationContent {
    pub title: String,
    pub fields: Vec<Field>,
    pub footer: String,
    pub author: Option<Attribution>,
    pub colour: u32,
}

/// Where a fault happened, as far as the "Channel Type" contextual field
/// tells it: the kind of channel the host's chat client reported, reduced to
/// what the label needs.
pub enum ChannelKind {
    Text,
    News,
    Voice,
    NewsThread,
    PublicThread,
    PrivateThread,
    Private,
    Category,
    Other,
}

/// The display label for each kind of channel.
pub open spec fn channel_type_text(kind: ChannelKind) -> Seq<char> {
    match kind {
        ChannelKind::Text => "Text Channel"@,
        ChannelKind::News => "Text Channel"@,
        ChannelKind::Voice => "Voice Channel"@,
        ChannelKind::NewsThread => "News Thread Channel"@,
        ChannelKind::PublicThread => "Public Thread Channel"@,
        ChannelKind::PrivateThread => "Private Thread Channel"@,
        ChannelKind::Private => "Private Channel"@,
        ChannelKind::Category => "Category Channel??"@,
        ChannelKind::Other => "Unknown Channel Type"@,
    }
}

/// The value of the "Channel Type" contextual field.
pub fn channel_type(kind: ChannelKind) -> (r: &'static str)
    ensures
        r@ == channel_type_text(kind),
{
    match kind {
        ChannelKind::Text => "Text Channel",
        ChannelKind::News => "Text Channel",
        ChannelKind::Voice => "Voice Channel",
        ChannelKind::NewsThread => "News Thread Channel",
        ChannelKind::PublicThread => "Public Thread Channel",
        ChannelKind::PrivateThread => "Private Thread Channel",
        ChannelKind::Private => "Private Channel",
        ChannelKind::Category => "Category Channel??",
        ChannelKind::Other => "Unknown Channel Type",
    }
}

/// The designated invisible value used as a visual spacer.
pub open spec fn spacer() -> Seq<char> {
    "\u{200B}"@
}

/// How a field value is displayed: the spacer stays bare, every other value
/// is wrapped in code-style emphasis.
pub open spec fn format_value(v: Seq<char>) -> Seq<char> {
    if v == spacer() {
        v
    } else {
        seq!['`'] + v + seq!['`']
    }
}

/// The decimal digit character for `d` (meaningful for `d < 10`).
pub open spec fn digit_char(d: nat) -> char {
    if d == 0 {
        '0'
    } else if d == 1 {
        '1'
    } else if d == 2 {
        '2'
    } else if d == 3 {
        '3'
    } else if d == 4 {
        '4'
    } else if d == 5 {
        '5'
    } else if d == 6 {
        '6'
    } else if d == 7 {
        '7'
    } else if d == 8 {
        '8'
    } else {
        '9'
    }
}

/// The decimal rendering of `n`, most significant digit first.
pub open spec fn decimal_digits(n: nat) -> Seq<char>
    decreases n,
{
    if n < 10 {
        seq![digit_char(n)]
    } else {
        decimal_digits(n / 10).push(digit_char(n % 10))
    }
}

/// The footer stating how often the fault has occurred.
pub open spec fn footer_text(n: nat) -> Seq<char> {
    "This error has occurred "@ + decimal_digits(n) + (if n == 1 {
        " time!"@
    } else {
        " times!"@
    })
}

fn digit_str(d: u64) -> (r: &'static str)
    requires
        d < 10,
    ensures
        r@ == seq![digit_char(d as nat)],
{
    if d == 0 {
        proof {
            reveal_strlit("0");
            assert("0"@ =~= seq![digit_char(0)]);
        }
        "0"
    } else if d == 1 {
        proof {
            reveal_strlit("1");
            assert("1"@ =~= seq![digit_char(1)]);
        }
        "1"
    } else if d == 2 {
        proof {
            reveal_strlit("2");
            assert("2"@ =~= seq![digit_char(2)]);
        }
        "2"
    } else if d == 3 {
        proof {
            reveal_strlit("3");
            assert("3"@ =~= seq![digit_char(3)]);
        }
        "3"
    } else if d == 4 {
        proof {
            reveal_strlit("4");
            assert("4"@ =~= seq![digit_char(4)]);
        }
        "4"
    } else if d == 5 {
        proof {
            reveal_strlit("5");
            assert("5"@ =~= seq![digit_char(5)]);
        }
        "5"
    } else if d == 6 {
        proof {
            reveal_strlit("6");
            assert("6"@ =~= seq![digit_char(6)]);
        }
        "6"
    } else if d == 7 {
        proof {
            reveal_strlit("7");
            assert("7"@ =~= seq![digit_char(7)]);
        }
        "7"
    } else if d == 8 {
        proof {
            reveal_strlit("8");
            assert("8"@ =~= seq![digit_char(8)]);
        }
        "8"
    } else {
        proof {
            reveal_strlit("9");
            assert("9"@ =~= seq![digit_char(9)]);
        }
        "9"
    }
}

fn u64_digits(n: u64) -> (s: String)
    ensures
        s@ == decimal_digits(n as nat),
    decreases n,
{
    if n < 10 {
        String::from_str(digit_str(n))
    } else {
        assert(n / 10 < n);
        let mut s = u64_digits(n / 10);
        s.append(digit_str(n % 10));
        proof {
            assert(s@ =~= decimal_digits(n as nat));
        }
        s
    }
}

/// The footer text for an incident seen `count` times.
pub fn occurrence_footer(count: u64) -> (s: String)
    ensures
        s@ == footer_text(count as nat),
{
    let mut s = String::from_str("This error has occurred ");
    let digits = u64_digits(count);
    s.append(digits.as_str());
    if count == 1 {
        s.append(" time!");
    } else {
        s.append(" times!");
    }
    proof {
        assert(s@ =~= footer_text(count as nat));
    }
    s
}

/// The invisible spacer field: label and value are the designated spacer
/// value, laid out inline; the renderer leaves it unformatted.
pub fn blank_field() -> (r: Field)
    ensures
        r.name@ == spacer(),
        r.value@ == spacer(),
        r.inline == true,
{
    Field {
        name: String::from_str("\u{200B}"),
        value: String::from_str("\u{200B}"),
        inline: true,
    }
}

/// Rewrite only the footer of a notification's content, leaving title,
/// fields, attribution and colour untouched: what a repeat occurrence does
/// to the incident's existing notification.
pub fn rewrite_footer(content: NotificationContent, footer: String) -> (r: NotificationContent)
    ensures
        r.title == content.title,
        r.fields == content.fields,
        r.author == content.author,
        r.colour == content.colour,
        r.footer == footer,
{
    NotificationContent {
        title: content.title,
        fields: content.fields,
        footer,
        author: content.author,
        colour: content.colour,
    }
}

fn wrap_value(v: &String) -> (r: String)
    ensures
        r@ == format_value(v@),
{
    let sp = String::from_str("\u{200B}");
    if v.eq(&sp) {
        v.clone()
    } else {
        let mut s = String::from_str("`");
        s.append(v.as_str());
        s.append("`");
        proof {
            reveal_strlit("`");
            assert("`"@ =~= seq!['`']);
            assert(s@ =~= format_value(v@));
        }
        s
    }
}

/// Build the content of a brand-new notification: the summary as title, the
/// caller's contextual fields in order with their values formatted for
/// display, the single-occurrence footer, and the attribution passed
/// through unchanged.
pub fn render_notification(summary: String, fields: &Vec<Field>, attribution: Option<Attribution>) -> (r: NotificationContent)
    ensures
        r.title == summary,
        r.footer@ == footer_text(1),
        r.author == attribution,
        r.colour == RED,
        r.fields@.len() == fields@.len(),
        forall|k: int| 0 <= k < fields@.len() ==> {
            &&& (#[trigger] r.fields@[k]).name@ == fields@[k].name@
            &&& r.fields@[k].value@ == format_value(fields@[k].value@)
            &&& r.fields@[k].inline == fields@[k].inline
        },
{
    let n = fields.len();
    let mut out: Vec<Field> = Vec::new();
    let mut i: usize = 0;
    while i < n
        invariant
            i <= n,
            n == fields@.len(),
            out@.len() == i,
            forall|k: int| 0 <= k < i ==> {
                &&& (#[trigger] out@[k]).name@ == fields@[k].name@
                &&& out@[k].value@ == format_value(fields@[k].value@)
                &&& out@[k].inline == fields@[k].inline
            },
        decreases n - i,
    {
        let value = wrap_value(&fields[i].value);
        let name = fields[i].name.clone();
        let inline = fields[i].inline;
        out.push(Field { name, value, inline });
        i += 1;
    }
    let footer = occurrence_footer(1);
    NotificationContent { title: summary, fields: out, footer, author: attribution, colour: RED }
}

} // verus!
