use vstd::prelude::*;
use crate::item::{Item, Tags};
use crate::text::{join, join_strings, lower_of, lowercase, push_decimal, decimal, replace_char, replaced, str_eq};

verus! {

/// How tags are turned into text for a sidecar file or a dataset export.
#[derive(Debug, Clone)]
pub struct TagSettings {
    pub remove_underscores: bool,
    pub escape_parentheses: bool,
    /// Categories whose tags are left out, in lower case.
    pub ignore_categories: Vec<String>,
    /// Tags left out of categorized tag lists.
    pub ignore_tags: Vec<String>,
}

/// The format images of a dataset are exported in.
#[derive(Debug, Clone, Copy, PartialEq, Eq, Structural)]
pub enum TargetImageFormat {
    Png,
    Jpg,
    Bmp,
    Gif,
    Qoi,
    WebP,
}

/// How the images of a dataset are prepared on export.
#[derive(Debug, Clone, Copy)]
pub struct ImageSettings {
    pub apply_letterboxing: bool,
    /// Target width and height; zero leaves that side to the aspect ratio,
    /// and two zeros keep the image as it is.
    pub resize: (u32, u32),
    pub target_format: TargetImageFormat,
}

/// Names the export folder after the training run.
#[derive(Debug, Clone)]
pub struct TrainingSettings {
    pub keyword: String,
    pub repetitions: u32,
}

/// Everything a dataset export is configured by.
#[derive(Debug, Clone)]
pub struct Settings {
    pub tags: TagSettings,
    pub image: ImageSettings,
    pub training: TrainingSettings,
}

/// A named selection of downloaded images, exported together.
#[derive(Debug, Clone)]
pub struct Dataset {
    pub name: String,
    /// Paths of the images in the dataset.
    pub images: Vec<String>,
    pub thumbnail: Option<String>,
    pub settings: Settings,
}

/// How an image is resized on export.
#[derive(Debug, Clone, Copy, PartialEq, Eq, Structural)]
pub enum ResizePlan {
    Keep,
    /// Fit within the box, keeping the aspect ratio.
    Fit { width: u32, height: u32 },
    /// Stretch to exactly this size.
    Exact { width: u32, height: u32 },
}

pub open spec fn default_tag_settings(t: TagSettings) -> bool {
    !t.remove_underscores && !t.escape_parentheses && t.ignore_categories@.len() == 0
        && t.ignore_tags@.len() == 0
}

pub open spec fn default_settings(s: Settings) -> bool {
    &&& default_tag_settings(s.tags)
    &&& s.image == ImageSettings {
        apply_letterboxing: false,
        resize: (0, 0),
        target_format: TargetImageFormat::Png,
    }
    &&& s.training.keyword@.len() == 0
    &&& s.training.repetitions == 0
}

impl TagSettings {
    /// Tags as they are: no category or tag left out, no rewriting.
    pub fn new() -> (r: TagSettings)
        ensures
            default_tag_settings(r),
    {
        TagSettings {
            remove_underscores: false,
            escape_parentheses: false,
            ignore_categories: Vec::new(),
            ignore_tags: Vec::new(),
        }
    }
}

impl Default for Settings {
    fn default() -> (r: Settings)
        ensures
            default_settings(r),
    {
        Settings {
            tags: TagSettings::new(),
            image: ImageSettings {
                apply_letterboxing: false,
                resize: (0, 0),
                target_format: TargetImageFormat::Png,
            },
            training: TrainingSettings { keyword: String::new(), repetitions: 0 },
        }
    }
}

impl Dataset {
    /// An empty dataset with default settings.
    pub fn new(name: String) -> (r: Dataset)
        ensures
            r.name == name,
            r.images@.len() == 0,
            r.thumbnail is None,
            default_settings(r.settings),
    {
        Dataset { name, images: Vec::new(), thumbnail: None, settings: Settings::default() }
    }
}

pub open spec fn format_extension(f: TargetImageFormat) -> Seq<char> {
    match f {
        TargetImageFormat::Png => seq!['p', 'n', 'g'],
        TargetImageFormat::Jpg => seq!['j', 'p', 'e', 'g'],
        TargetImageFormat::Bmp => seq!['b', 'm', 'p'],
        TargetImageFormat::Gif => seq!['g', 'i', 'f'],
        TargetImageFormat::Qoi => seq!['q', 'o', 'i'],
        TargetImageFormat::WebP => seq!['w', 'e', 'b', 'p'],
    }
}

impl TargetImageFormat {
    /// The file extension exported images of this format get.
    pub fn extension(&self) -> (r: String)
        ensures
            r@ == format_extension(*self),
    {
        let r = match self {
            TargetImageFormat::Png => String::from_str("png"),
            TargetImageFormat::Jpg => String::from_str("jpeg"),
            TargetImageFormat::Bmp => String::from_str("bmp"),
            TargetImageFormat::Gif => String::from_str("gif"),
            TargetImageFormat::Qoi => String::from_str("qoi"),
            TargetImageFormat::WebP => String::from_str("webp"),
        };
        proof {
            reveal_strlit("png");
            reveal_strlit("jpeg");
            reveal_strlit("bmp");
            reveal_strlit("gif");
            reveal_strlit("qoi");
            reveal_strlit("webp");
        }
        r
    }
}

pub open spec fn resize_plan_of(resize: (u32, u32), width: u32, height: u32) -> ResizePlan {
    match resize {
        (0, 0) => ResizePlan::Keep,
        (w, 0) => ResizePlan::Fit { width: w, height },
        (0, h) => ResizePlan::Fit { width, height: h },
        (w, h) => ResizePlan::Exact { width: w, height: h },
    }
}

/// How an image of `width` by `height` is resized on export.
pub fn resize_plan(settings: &ImageSettings, width: u32, height: u32) -> (r: ResizePlan)
    ensures
        r == resize_plan_of(settings.resize, width, height),
{
    match settings.resize {
        (0, 0) => ResizePlan::Keep,
        (w, 0) => ResizePlan::Fit { width: w, height },
        (0, h) => ResizePlan::Fit { width, height: h },
        (w, h) => ResizePlan::Exact { width: w, height: h },
    }
}

pub open spec fn export_folder_name_of(t: TrainingSettings) -> Seq<char> {
    decimal(t.repetitions as nat).push('_') + t.keyword@
}

/// The folder a dataset is exported into: repetitions, `_`, keyword.
pub fn export_folder_name(training: &TrainingSettings) -> (r: String)
    ensures
        r@ == export_folder_name_of(*training),
{
    let mut out = String::new();
    push_decimal(&mut out, training.repetitions as u64);
    crate::text::push_char(&mut out, '_');
    out.append(training.keyword.as_str());
    assert(out@ =~= export_folder_name_of(*training));
    out
}

pub open spec fn contains_text(v: Seq<String>, s: Seq<char>) -> bool {
    exists|j: int| 0 <= j < v.len() && (#[trigger] v[j])@ == s
}

/// Whether `v` holds a string equal to `s`.
pub fn contains_str(v: &Vec<String>, s: &str) -> (r: bool)
    ensures
        r == contains_text(v@, s@),
{
    let mut i: usize = 0;
    while i < v.len()
        invariant
            i <= v.len(),
            forall|j: int| 0 <= j < i ==> (#[trigger] v@[j])@ != s@,
        decreases v.len() - i,
    {
        if str_eq(v[i].as_str(), s) {
            return true;
        }
        i = i + 1;
    }
    false
}

/// The tags of one category that survive `ignore_tags`, in order.
pub open spec fn kept_in_category(ts: Seq<String>, ignore_tags: Seq<String>) -> Seq<Seq<char>>
    decreases ts.len(),
{
    if ts.len() == 0 {
        Seq::empty()
    } else {
        kept_in_category(ts.drop_last(), ignore_tags) + if contains_text(ignore_tags, ts.last()@) {
            Seq::empty()
        } else {
            seq![ts.last()@]
        }
    }
}

/// The tags of the categories that are not ignored, category by category.
pub open spec fn kept_categorized(cats: Seq<(String, Vec<String>)>, st: TagSettings) -> Seq<
    Seq<char>,
>
    decreases cats.len(),
{
    if cats.len() == 0 {
        Seq::empty()
    } else {
        let (name, ts) = cats.last();
        kept_categorized(cats.drop_last(), st) + if contains_text(
            st.ignore_categories@,
            lower_of(name@),
        ) {
            Seq::empty()
        } else {
            kept_in_category(ts@, st.ignore_tags@)
        }
    }
}

pub open spec fn kept_tags(tags: Tags, st: TagSettings) -> Seq<Seq<char>> {
    match tags {
        Tags::All(ts) => ts@.map_values(|t: String| t@),
        Tags::Categorized(cats) => kept_categorized(cats@, st),
    }
}

/// Underscores become spaces and parentheses are escaped, as configured.
pub open spec fn rewrite_tags(s: Seq<char>, st: TagSettings) -> Seq<char> {
    let u = if st.remove_underscores {
        replace_char(s, '_', seq![' '])
    } else {
        s
    };
    if st.escape_parentheses {
        replace_char(replace_char(u, '(', seq!['\\', '(']), ')', seq!['\\', ')'])
    } else {
        u
    }
}

/// The tag text of an item: its kept tags joined by `, `, then rewritten.
pub open spec fn tag_string(tags: Tags, st: TagSettings) -> Seq<char> {
    rewrite_tags(join(kept_tags(tags, st), seq![',', ' ']), st)
}

/// Whether the tags of a category, whose name is given in lower case, are
/// left out.
pub fn category_ignored(lowered_name: &str, settings: &TagSettings) -> (r: bool)
    ensures
        r == contains_text(settings.ignore_categories@, lowered_name@),
{
    contains_str(&settings.ignore_categories, lowered_name)
}

fn push_kept_in_category(out: &mut Vec<String>, ts: &Vec<String>, ignore_tags: &Vec<String>)
    ensures
        final(out)@.map_values(|t: String| t@) == old(out)@.map_values(|t: String| t@)
            + kept_in_category(ts@, ignore_tags@),
{
    let mut i: usize = 0;
    while i < ts.len()
        invariant
            i <= ts.len(),
            out@.map_values(|t: String| t@) == old(out)@.map_values(|t: String| t@)
                + kept_in_category(ts@.subrange(0, i as int), ignore_tags@),
        decreases ts.len() - i,
    {
        let ghost before = out@;
        proof {
            assert(ts@.subrange(0, i + 1).drop_last() =~= ts@.subrange(0, i as int));
        }
        if !contains_str(ignore_tags, ts[i].as_str()) {
            out.push(ts[i].clone());
            assert(out@.map_values(|t: String| t@) =~= before.map_values(|t: String| t@).push(
                ts@[i as int]@,
            ));
        }
        i = i + 1;
        assert(out@.map_values(|t: String| t@) =~= old(out)@.map_values(|t: String| t@)
            + kept_in_category(ts@.subrange(0, i as int), ignore_tags@));
    }
    assert(ts@.subrange(0, ts.len() as int) =~= ts@);
}

/// The kept tags of an item, in order.
pub fn kept_tag_list(tags: &Tags, settings: &TagSettings) -> (r: Vec<String>)
    ensures
        r@.map_values(|t: String| t@) == kept_tags(*tags, *settings),
{
    match tags {
        Tags::All(ts) => crate::text::copy_strings(ts),
        Tags::Categorized(cats) => {
            let mut out: Vec<String> = Vec::new();
            let mut i: usize = 0;
            while i < cats.len()
                invariant
                    i <= cats.len(),
                    out@.map_values(|t: String| t@) == kept_categorized(
                        cats@.subrange(0, i as int),
                        *settings,
                    ),
                decreases cats.len() - i,
            {
                proof {
                    assert(cats@.subrange(0, i + 1).drop_last() =~= cats@.subrange(0, i as int));
                }
                let ghost before = out@.map_values(|t: String| t@);
                let lowered = lowercase(cats[i].0.as_str());
                if !category_ignored(lowered.as_str(), settings) {
                    push_kept_in_category(&mut out, &cats[i].1, &settings.ignore_tags);
                } else {
                    assert(before + Seq::<Seq<char>>::empty() =~= before);
                }
                i = i + 1;
            }
            assert(cats@.subrange(0, cats.len() as int) =~= cats@);
            out
        },
    }
}

/// The tags of an item as one line of text, as configured.
pub fn get_tag_string(post: &Item, settings: &TagSettings) -> (r: String)
    ensures
        r@ == tag_string(post.tags, *settings),
{
    let kept = kept_tag_list(&post.tags, settings);
    let joined = join_strings(&kept, ", ");
    proof {
        reveal_strlit(", ");
        assert(", "@ =~= seq![',', ' ']);
    }
    let u = if settings.remove_underscores {
        proof {
            reveal_strlit(" ");
            assert(" "@ =~= seq![' ']);
        }
        replaced(joined.as_str(), '_', " ")
    } else {
        joined
    };
    if settings.escape_parentheses {
        proof {
            reveal_strlit("\\(");
            reveal_strlit("\\)");
            assert("\\("@ =~= seq!['\\', '(']);
            assert("\\)"@ =~= seq!['\\', ')']);
        }
        let a = replaced(u.as_str(), '(', "\\(");
        replaced(a.as_str(), ')', "\\)")
    } else {
        u
    }
}

} // verus!
