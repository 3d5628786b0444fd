//! The content of a Discord embed, as the bot composes it. Sending it is the caller's
//! part.
use crate::text::{copy_string, owned};
use vstd::prelude::*;

verus! {

/// Colours as serenity names them (`serenity::model::Colour`).
pub const COLOUR_BLUE: u32 = 0x3498DB;
pub const COLOUR_BLURPLE: u32 = 0x7289DA;
pub const COLOUR_DARK_PURPLE: u32 = 0x71368A;
pub const COLOUR_GOLD: u32 = 0xF1C40F;
pub const COLOUR_LIGHT_GREY: u32 = 0x979C9F;
pub const COLOUR_ORANGE: u32 = 0xE67E22;
pub const COLOUR_RED: u32 = 0xE74C3C;

/// One field of an embed.
#[derive(Debug)]
pub struct EmbedField {
    pub name: String,
    pub value: String,
    pub inline: bool,
}

/// What an embed shows. `timestamp_now` asks for the current time to be shown.
#[derive(Debug)]
pub struct Embed {
    pub title: Option<String>,
    pub description: Option<String>,
    pub color: Option<u32>,
    pub fields: Vec<EmbedField>,
    pub footer: Option<String>,
    pub thumbnail: Option<String>,
    pub author: Option<String>,
    pub author_icon: Option<String>,
    pub timestamp_now: bool,
}

pub type FieldView = (Seq<char>, Seq<char>, bool);

#[verifier::ext_equal]
pub struct EmbedView {
    pub title: Option<Seq<char>>,
    pub description: Option<Seq<char>>,
    pub color: Option<u32>,
    pub fields: Seq<FieldView>,
    pub footer: Option<Seq<char>>,
    pub thumbnail: Option<Seq<char>>,
    pub author: Option<Seq<char>>,
    pub author_icon: Option<Seq<char>>,
    pub timestamp_now: bool,
}

pub open spec fn fields_view(v: Seq<EmbedField>) -> Seq<FieldView> {
    v.map_values(|f: EmbedField| (f.name@, f.value@, f.inline))
}

impl View for Embed {
    type V = EmbedView;

    open spec fn view(&self) -> EmbedView {
        EmbedView {
            title: crate::github::opt_str(self.title),
            description: crate::github::opt_str(self.description),
            color: self.color,
            fields: fields_view(self.fields@),
            footer: crate::github::opt_str(self.footer),
            thumbnail: crate::github::opt_str(self.thumbnail),
            author: crate::github::opt_str(self.author),
            author_icon: crate::github::opt_str(self.author_icon),
            timestamp_now: self.timestamp_now,
        }
    }
}

/// An embed with a title, a description and a colour, and nothing else yet.
pub open spec fn titled(title: Seq<char>, description: Seq<char>, color: u32) -> EmbedView {
    EmbedView {
        title: Some(title),
        description: Some(description),
        color: Some(color),
        fields: Seq::empty(),
        footer: None,
        thumbnail: None,
        author: None,
        author_icon: None,
        timestamp_now: false,
    }
}

impl Embed {
    /// An embed with a title, a description and a colour.
    pub fn titled(title: &str, description: String, color: u32) -> (e: Embed)
        ensures
            e@ == titled(title@, description@, color),
    {
        let e = Embed {
            title: Some(owned(title)),
            description: Some(description),
            color: Some(color),
            fields: Vec::new(),
            footer: None,
            thumbnail: None,
            author: None,
            author_icon: None,
            timestamp_now: false,
        };
        assert(e@ =~= titled(title@, description@, color));
        e
    }

    /// Appends a field.
    pub fn add_field(&mut self, name: &str, value: String, inline: bool)
        ensures
            final(self)@ == (EmbedView { fields: old(self)@.fields.push((name@, value@, inline)), ..old(self)@ }),
    {
        let ghost before = self.fields@;
        self.fields.push(EmbedField { name: owned(name), value, inline });
        assert(fields_view(self.fields@) =~= fields_view(before).push((name@, value@, inline)));
        assert(self@ =~= (EmbedView { fields: old(self)@.fields.push((name@, value@, inline)), ..old(self)@ }));
    }

    /// Sets the footer text.
    pub fn set_footer(&mut self, text: String)
        ensures
            final(self)@ == (EmbedView { footer: Some(text@), ..old(self)@ }),
    {
        self.footer = Some(text);
        assert(self@ =~= (EmbedView { footer: Some(text@), ..old(self)@ }));
    }

    /// Sets the thumbnail image.
    pub fn set_thumbnail(&mut self, url: &String)
        ensures
            final(self)@ == (EmbedView { thumbnail: Some(url@), ..old(self)@ }),
    {
        self.thumbnail = Some(copy_string(url));
        assert(self@ =~= (EmbedView { thumbnail: Some(url@), ..old(self)@ }));
    }

    /// Sets the author line, with an icon where there is one.
    pub fn set_author(&mut self, name: &String, icon: &Option<String>)
        ensures
            final(self)@ == (EmbedView {
                author: Some(name@),
                author_icon: crate::github::opt_str(*icon),
                ..old(self)@
            }),
    {
        self.author = Some(copy_string(name));
        self.author_icon = crate::github::copy_opt(icon);
        assert(self@ =~= (EmbedView { author: Some(name@), author_icon: crate::github::opt_str(*icon), ..old(self)@ }));
    }

    /// Asks for the current time to be shown.
    pub fn stamp_now(&mut self)
        ensures
            final(self)@ == (EmbedView { timestamp_now: true, ..old(self)@ }),
    {
        self.timestamp_now = true;
        assert(self@ =~= (EmbedView { timestamp_now: true, ..old(self)@ }));
    }
}

} // verus!
