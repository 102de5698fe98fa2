use vstd::prelude::*;
use crate::datasets;
use crate::text::{lower_of, lowercase};

verus! {

/// How downloaded items get their sidecar tag files.
#[derive(Debug, Clone)]
pub struct TagSettings {
    pub save_tags: bool,
    pub remove_underscores: bool,
    pub escape_parentheses: bool,
    /// Comma-separated categories whose tags are left out.
    pub ignore_categories: String,
}

#[derive(Debug, Clone, Copy, PartialEq, Eq, Structural)]
pub struct ImageSettings {
    pub apply_letterboxing: bool,
}

/// The user's download settings, and whether the settings panel is shown.
#[derive(Debug, Clone)]
pub struct Settings {
    pub show: bool,
    pub tag_settings: TagSettings,
    pub image_settings: ImageSettings,
}

/// A change the user makes in the settings panel.
#[derive(Debug, Clone)]
pub enum SettingsMessage {
    SettingsOpened,
    SettingsClosed,
    ToggleSaveTags(bool),
    ToggleRemoveUnderscores(bool),
    ToggleEscapeParentheses(bool),
    ToggleApplyLetterboxing(bool),
    IgnoredCategoriesChanged(String),
}

/// `s` cut at each `c`; a string without `c` is one piece.
pub open spec fn split_on(s: Seq<char>, c: char) -> Seq<Seq<char>>
    decreases s.len(),
{
    if s.len() == 0 {
        seq![Seq::empty()]
    } else {
        let p = split_on(s.drop_last(), c);
        if s.last() == c {
            p.push(Seq::empty())
        } else {
            p.update(p.len() - 1, p.last().push(s.last()))
        }
    }
}

proof fn lemma_split_on_nonempty(s: Seq<char>, c: char)
    ensures
        split_on(s, c).len() >= 1,
    decreases s.len(),
{
    if s.len() > 0 {
        lemma_split_on_nonempty(s.drop_last(), c);
    }
}

/// What `str::trim` makes of a string.
pub uninterp spec fn trim_of(s: Seq<char>) -> Seq<char>;

/// Relies on `str::trim`: the string without leading and trailing white
/// space.
#[verifier::external_body]
fn trimmed(s: &str) -> (r: String)
    ensures
        r@ == trim_of(s@),
{
    s.trim().to_string()
}

/// The pieces of `s` between commas.
pub fn split_commas(s: &str) -> (r: Vec<String>)
    ensures
        r@.map_values(|p: String| p@) == split_on(s@, ','),
{
    let n = s.unicode_len();
    let mut pieces: Vec<String> = Vec::new();
    let mut cur = String::new();
    let mut i: usize = 0;
    while i < n
        invariant
            n == s@.len(),
            i <= n,
            pieces@.map_values(|p: String| p@).push(cur@) == split_on(
                s@.subrange(0, i as int),
                ',',
            ),
        decreases n - i,
    {
        let ghost pre = pieces@.map_values(|p: String| p@);
        let ghost cur0 = cur@;
        proof {
            assert(s@.subrange(0, i + 1).drop_last() =~= s@.subrange(0, i as int));
        }
        let c = s.get_char(i);
        if c == ',' {
            let mut done = String::new();
            std::mem::swap(&mut cur, &mut done);
            pieces.push(done);
            assert(pieces@.map_values(|p: String| p@) =~= pre.push(cur0));
        } else {
            crate::text::push_char(&mut cur, c);
            assert(pre.push(cur@) =~= pre.push(cur0).update(pre.len() as int, cur0.push(c)));
        }
        i = i + 1;
    }
    assert(s@.subrange(0, n as int) =~= s@);
    let ghost pre = pieces@.map_values(|p: String| p@);
    pieces.push(cur);
    assert(pieces@.map_values(|p: String| p@) =~= pre.push(cur@));
    pieces
}

impl Settings {
    /// Download settings as they start: nothing saved besides the image, no
    /// rewriting, no category left out.
    pub fn new() -> (r: Settings)
        ensures
            !r.show,
            !r.tag_settings.save_tags,
            !r.tag_settings.remove_underscores,
            !r.tag_settings.escape_parentheses,
            r.tag_settings.ignore_categories@.len() == 0,
            !r.image_settings.apply_letterboxing,
    {
        Settings {
            show: false,
            tag_settings: TagSettings {
                save_tags: false,
                remove_underscores: false,
                escape_parentheses: false,
                ignore_categories: String::new(),
            },
            image_settings: ImageSettings { apply_letterboxing: false },
        }
    }
}

impl TagSettings {
    /// The rules a sidecar tag file is written by: each comma-separated
    /// category, trimmed, is left out; no single tag is.
    pub fn tag_rules(&self) -> (r: datasets::TagSettings)
        ensures
            r.remove_underscores == self.remove_underscores,
            r.escape_parentheses == self.escape_parentheses,
            r.ignore_categories@.map_values(|p: String| p@) == split_on(
                self.ignore_categories@,
                ',',
            ).map_values(|p: Seq<char>| trim_of(p)),
            r.ignore_tags@.len() == 0,
    {
        let pieces = split_commas(self.ignore_categories.as_str());
        let ghost pv = pieces@.map_values(|p: String| p@);
        let mut cats: Vec<String> = Vec::new();
        let mut i: usize = 0;
        while i < pieces.len()
            invariant
                i <= pieces.len(),
                pv == pieces@.map_values(|p: String| p@),
                cats@.map_values(|p: String| p@) == pv.subrange(0, i as int).map_values(
                    |p: Seq<char>| trim_of(p),
                ),
            decreases pieces.len() - i,
        {
            assert(pv[i as int] == pieces@[i as int]@);
            let ghost before = cats@.map_values(|p: String| p@);
            let t = trimmed(pieces[i].as_str());
            cats.push(t);
            assert(cats@.map_values(|p: String| p@) =~= before.push(t@));
            assert(pv.subrange(0, i + 1).map_values(|p: Seq<char>| trim_of(p)) =~= pv.subrange(
                0,
                i as int,
            ).map_values(|p: Seq<char>| trim_of(p)).push(trim_of(pv[i as int])));
            i = i + 1;
        }
        assert(pv.subrange(0, pieces.len() as int) =~= pv);
        datasets::TagSettings {
            remove_underscores: self.remove_underscores,
            escape_parentheses: self.escape_parentheses,
            ignore_categories: cats,
            ignore_tags: Vec::new(),
        }
    }
}

/// The abstract value of download settings.
pub struct SettingsView {
    pub show: bool,
    pub tags: TagSettingsView,
    pub apply_letterboxing: bool,
}

impl View for Settings {
    type V = SettingsView;

    open spec fn view(&self) -> SettingsView {
        SettingsView {
            show: self.show,
            tags: self.tag_settings@,
            apply_letterboxing: self.image_settings.apply_letterboxing,
        }
    }
}

/// The settings after a change.
pub open spec fn apply_message(s: SettingsView, m: SettingsMessage) -> SettingsView {
    match m {
        SettingsMessage::SettingsOpened => SettingsView { show: true, ..s },
        SettingsMessage::SettingsClosed => SettingsView { show: false, ..s },
        SettingsMessage::ToggleSaveTags(v) => SettingsView {
            tags: TagSettingsView { save_tags: v, ..s.tags },
            ..s
        },
        SettingsMessage::ToggleRemoveUnderscores(v) => SettingsView {
            tags: TagSettingsView { remove_underscores: v, ..s.tags },
            ..s
        },
        SettingsMessage::ToggleEscapeParentheses(v) => SettingsView {
            tags: TagSettingsView { escape_parentheses: v, ..s.tags },
            ..s
        },
        SettingsMessage::ToggleApplyLetterboxing(v) => SettingsView { apply_letterboxing: v, ..s },
        SettingsMessage::IgnoredCategoriesChanged(v) => SettingsView {
            tags: TagSettingsView { ignore_categories: lower_of(v@), ..s.tags },
            ..s
        },
    }
}

impl SettingsMessage {
    /// Applies the change. Returns whether the settings are to be saved,
    /// which is when the panel is closed; the categories are kept in lower
    /// case.
    pub fn handle(self, settings: &mut Settings) -> (save: bool)
        ensures
            save == (self is SettingsClosed),
            final(settings)@ == apply_message(old(settings)@, self),
    {
        match self {
            SettingsMessage::SettingsOpened => {
                settings.show = true;
                false
            },
            SettingsMessage::SettingsClosed => {
                settings.show = false;
                true
            },
            SettingsMessage::ToggleSaveTags(v) => {
                settings.tag_settings.save_tags = v;
                false
            },
            SettingsMessage::ToggleRemoveUnderscores(v) => {
                settings.tag_settings.remove_underscores = v;
                false
            },
            SettingsMessage::ToggleEscapeParentheses(v) => {
                settings.tag_settings.escape_parentheses = v;
                false
            },
            SettingsMessage::ToggleApplyLetterboxing(v) => {
                settings.image_settings.apply_letterboxing = v;
                false
            },
            SettingsMessage::IgnoredCategoriesChanged(v) => {
                settings.tag_settings.ignore_categories = lowercase(v.as_str());
                false
            },
        }
    }
}

/// The abstract value of tag settings.
pub struct TagSettingsView {
    pub save_tags: bool,
    pub remove_underscores: bool,
    pub escape_parentheses: bool,
    pub ignore_categories: Seq<char>,
}

impl View for TagSettings {
    type V = TagSettingsView;

    open spec fn view(&self) -> TagSettingsView {
        TagSettingsView {
            save_tags: self.save_tags,
            remove_underscores: self.remove_underscores,
            escape_parentheses: self.escape_parentheses,
            ignore_categories: self.ignore_categories@,
        }
    }
}

} // verus!
