use vstd::prelude::*;

use crate::name::{is_valid_name, Name};
use crate::text::str_equal;
use vstd::string::*;

verus! {

/// Largest accepted logo height or width.
pub const MAX_LOGO_DIMENSION: u16 = 10000;

/// Height or width of a logo: a number in `1..=MAX_LOGO_DIMENSION`.
#[derive(Clone, Copy, Debug, PartialEq, Eq, Hash)]
pub struct LogoDimension {
    value: u16,
}

/// A requested logo dimension that is zero or too large.
#[derive(Debug, PartialEq, Eq)]
pub struct InvalidLogoHeight(pub u16);

impl LogoDimension {
    pub closed spec fn spec_value(self) -> u16 {
        self.value
    }

    #[verifier::type_invariant]
    closed spec fn inv(self) -> bool {
        0 < self.value <= MAX_LOGO_DIMENSION
    }

    /// Validates a requested dimension. Zero is reported as `InvalidLogoHeight(0)`,
    /// values above the limit are reported with the value itself.
    pub fn try_from_u16(value: u16) -> (r: Result<LogoDimension, InvalidLogoHeight>)
        ensures
            value == 0 ==> r == Err::<LogoDimension, InvalidLogoHeight>(InvalidLogoHeight(0)),
            value > MAX_LOGO_DIMENSION ==> r == Err::<LogoDimension, InvalidLogoHeight>(InvalidLogoHeight(value)),
            0 < value <= MAX_LOGO_DIMENSION ==> (r matches Ok(d) && d.spec_value() == value),
    {
        if value == 0 {
            return Err(InvalidLogoHeight(0));
        }
        if value > MAX_LOGO_DIMENSION {
            return Err(InvalidLogoHeight(value));
        }
        Ok(LogoDimension { value })
    }

    /// The dimension as a number.
    pub fn get(&self) -> (r: u16)
        ensures
            r == self.spec_value(),
            0 < r <= MAX_LOGO_DIMENSION,
    {
        proof { use_type_invariant(self); }
        self.value
    }
}


/// The dimension used when a query gives none.
pub const DEFAULT_LOGO_DIMENSION: u16 = 300;

impl LogoDimension {
    /// The default dimension, 300.
    pub fn default_dimension() -> (r: LogoDimension)
        ensures
            r.spec_value() == DEFAULT_LOGO_DIMENSION,
    {
        LogoDimension { value: DEFAULT_LOGO_DIMENSION }
    }
}

/// An encoded image, such as an SVG file.
impl Default for LogoDimension {
    fn default() -> (r: Self)
        ensures
            r.spec_value() == DEFAULT_LOGO_DIMENSION,
    {
        LogoDimension::default_dimension()
    }
}

#[derive(Debug, Clone)]
pub struct EncodedImage(pub Vec<u8>);

/// Request for a logo: an optional theme and the size.
#[derive(Debug, Clone)]
pub struct LogoQuery {
    pub theme: Option<Name>,
    pub height: LogoDimension,
    pub width: LogoDimension,
}

impl LogoQuery {
    /// No theme, both dimensions 300.
    pub fn default_query() -> (r: LogoQuery)
        ensures
            r.theme is None,
            r.height.spec_value() == DEFAULT_LOGO_DIMENSION,
            r.width.spec_value() == DEFAULT_LOGO_DIMENSION,
    {
        LogoQuery {
            theme: None,
            height: LogoDimension::default_dimension(),
            width: LogoDimension::default_dimension(),
        }
    }
}

/// The logo that is served when the root directory holds none: a main image and
/// images for named themes.
#[non_exhaustive]
pub struct FallbackLogo {
    pub main: &'static [u8],
    pub themes: &'static [(&'static str, &'static [u8])],
}

/// The themes of a fallback logo whose names are valid, in order, as (name, image).
pub open spec fn valid_themes(themes: Seq<(&'static str, &'static [u8])>) -> Seq<(Seq<char>, Seq<u8>)>
    decreases themes.len(),
{
    if themes.len() == 0 {
        seq![]
    } else {
        let last = themes.last();
        valid_themes(themes.drop_last()) + if is_valid_name(last.0@) {
            seq![(last.0@, last.1@)]
        } else {
            seq![]
        }
    }
}

/// The themes of a logo service as (name, image).
pub open spec fn theme_views(themes: Seq<(Name, EncodedImage)>) -> Seq<(Seq<char>, Seq<u8>)> {
    themes.map_values(|t: (Name, EncodedImage)| (t.0@, t.1.0@))
}

fn slice_to_vec(data: &[u8]) -> (r: Vec<u8>)
    ensures
        r@ == data@,
{
    let mut r: Vec<u8> = Vec::new();
    let mut i: usize = 0;
    while i < data.len()
        invariant
            i <= data@.len(),
            r@ == data@.take(i as int),
        decreases data.len() - i,
    {
        r.push(data[i]);
        i = i + 1;
        assert(r@ =~= data@.take(i as int));
    }
    assert(data@.take(data@.len() as int) =~= data@);
    r
}

impl FallbackLogo {
    /// A logo without themes.
    pub fn new(main: &'static [u8]) -> (r: Self)
        ensures
            r.main@ == main@,
            r.themes@.len() == 0,
    {
        FallbackLogo { main, themes: &[] }
    }

    /// A logo with themes.
    pub fn with_themes(main: &'static [u8], themes: &'static [(&'static str, &'static [u8])]) -> (r:
        Self)
        ensures
            r.main@ == main@,
            r.themes@ == themes@,
    {
        FallbackLogo { main, themes }
    }

    /// The main image and the themed images. Themes whose name is not a valid
    /// name are skipped.
    pub fn into_images(self) -> (r: (EncodedImage, Vec<(Name, EncodedImage)>))
        ensures
            r.0.0@ == self.main@,
            theme_views(r.1@) == valid_themes(self.themes@),
    {
        let main = EncodedImage(slice_to_vec(self.main));
        let themes = self.themes;
        let mut out: Vec<(Name, EncodedImage)> = Vec::new();
        let mut i: usize = 0;
        assert(themes@.take(0) =~= seq![]);
        while i < themes.len()
            invariant
                i <= themes@.len(),
                theme_views(out@) == valid_themes(themes@.take(i as int)),
            decreases themes.len() - i,
        {
            let (name_raw, data) = themes[i];
            assert(themes@.take(i + 1).drop_last() =~= themes@.take(i as int));
            assert(themes@.take(i + 1).last() == themes@[i as int]);
            match Name::parse(name_raw) {
                Ok(name) => {
                    out.push((name, EncodedImage(slice_to_vec(data))));
                },
                Err(_) => {},
            }
            i = i + 1;
            assert(theme_views(out@) =~= valid_themes(themes@.take(i as int)));
        }
        assert(themes@.take(themes@.len() as int) =~= themes@);
        (main, out)
    }
}

/// The image of the last theme in `themes` named `name`, if any.
pub open spec fn theme_lookup(themes: Seq<(Seq<char>, Seq<u8>)>, name: Seq<char>) -> Option<Seq<u8>>
    decreases themes.len(),
{
    if themes.len() == 0 {
        None
    } else if themes.last().0 == name {
        Some(themes.last().1)
    } else {
        theme_lookup(themes.drop_last(), name)
    }
}

/// The image a logo service answers for a query: the image of the requested
/// theme, or the main image when there is no such theme.
pub open spec fn logo_answer(main: Seq<u8>, themes: Seq<(Seq<char>, Seq<u8>)>, theme: Option<Seq<char>>) -> Seq<u8> {
    match theme {
        Some(name) => match theme_lookup(themes, name) {
            Some(image) => image,
            None => main,
        },
        None => main,
    }
}

/// Answers logo queries. Each implementation says, by `spec_image`, which image
/// it answers for a query.
pub trait LogoServiceTrait {
    /// The image this service answers for `query`.
    spec fn spec_image(&self, query: LogoQuery) -> Seq<u8>;

    fn get(&self, query: &LogoQuery) -> (r: EncodedImage)
        ensures
            r.0@ == self.spec_image(*query),
    ;
}

/// A shared logo service; `S` is the implementation that answers, which may be a
/// trait object.
pub struct LogoService<S: ?Sized>(std::sync::Arc<S>);

impl<S: ?Sized> LogoService<S> {
    /// The implementation that answers.
    pub closed spec fn spec_inner(&self) -> std::sync::Arc<S> {
        self.0
    }
}

impl<S: ?Sized> Clone for LogoService<S> {
    fn clone(&self) -> (r: Self)
        ensures
            r.spec_inner() == self.spec_inner(),
    {
        LogoService(self.0.clone())
    }
}

impl<S: LogoServiceTrait + ?Sized> LogoService<S> {
    pub fn new(inner: std::sync::Arc<S>) -> (r: Self)
        ensures
            r.spec_inner() == inner,
    {
        LogoService(inner)
    }

    /// The image that the implementation gives for `query`.
    pub fn get(&self, query: &LogoQuery) -> (r: EncodedImage)
        ensures
            r.0@ == self.spec_inner().spec_image(*query),
    {
        self.0.get(query)
    }
}

/// A logo service with a main image and themed images. When two themes have the
/// same name, the later one counts.
pub struct LogoServiceImpl {
    main: EncodedImage,
    themes: Vec<(Name, EncodedImage)>,
}

impl LogoServiceImpl {
    pub closed spec fn spec_main(&self) -> Seq<u8> {
        self.main.0@
    }

    pub closed spec fn spec_themes(&self) -> Seq<(Seq<char>, Seq<u8>)> {
        theme_views(self.themes@)
    }

    pub fn new(fallback: EncodedImage, themes: Vec<(Name, EncodedImage)>) -> (r: Self)
        ensures
            r.spec_main() == fallback.0@,
            r.spec_themes() == theme_views(themes@),
    {
        LogoServiceImpl { main: fallback, themes }
    }

    /// The image for `query`.
    #[verifier::loop_isolation(false)]
    pub fn lookup(&self, query: &LogoQuery) -> (r: EncodedImage)
        ensures
            r.0@ == logo_answer(
                self.spec_main(),
                self.spec_themes(),
                match query.theme {
                    Some(n) => Some(n@),
                    None => None,
                },
            ),
    {
        match &query.theme {
            Some(name) => {
                let mut i: usize = self.themes.len();
                assert(self.themes@.take(i as int) =~= self.themes@);
                while i > 0
                    invariant
                        i <= self.themes@.len(),
                        theme_lookup(self.spec_themes(), name@) == theme_lookup(
                            theme_views(self.themes@.take(i as int)),
                            name@,
                        ),
                    decreases i,
                {
                    let ghost prefix = theme_views(self.themes@.take(i as int));
                    assert(prefix.drop_last() =~= theme_views(self.themes@.take(i - 1)));
                    assert(prefix.last() == (self.themes@[i - 1].0@, self.themes@[i - 1].1.0@));
                    if str_equal(self.themes[i - 1].0.as_str(), name.as_str()) {
                        let image = self.themes[i - 1].1.0.clone();
                        assert(image@ =~= self.themes@[i - 1].1.0@);
                        return EncodedImage(image);
                    }
                    i = i - 1;
                }
                let image = self.main.0.clone();
                assert(image@ =~= self.main.0@);
                EncodedImage(image)
            },
            None => {
                let image = self.main.0.clone();
                assert(image@ =~= self.main.0@);
                EncodedImage(image)
            },
        }
    }
}

impl LogoServiceTrait for LogoServiceImpl {
    open spec fn spec_image(&self, query: LogoQuery) -> Seq<u8> {
        logo_answer(
            self.spec_main(),
            self.spec_themes(),
            match query.theme {
                Some(n) => Some(n@),
                None => None,
            },
        )
    }

    fn get(&self, query: &LogoQuery) -> (r: EncodedImage) {
        self.lookup(query)
    }
}

/// Whether a file named `name` holds a logo: its name starts with `logo`.
pub open spec fn is_logo_file_name(name: Seq<char>) -> bool {
    name.len() >= 4 && name.take(4) == seq!['l', 'o', 'g', 'o']
}

/// Whether a directory entry, `None` when unreadable, is a logo file.
pub open spec fn holds_logo(entry: Option<String>) -> bool {
    entry matches Some(m) && is_logo_file_name(m@)
}

/// The position of the logo file among the entries of a directory, of which
/// unreadable ones are `None`: the first whose name starts with `logo`.
pub fn first_logo_file(entries: &Vec<Option<String>>) -> (r: Option<usize>)
    ensures
        match r {
            Some(i) => i < entries@.len() && holds_logo(entries@[i as int]) && forall|j: int|
                0 <= j < i ==> !holds_logo(#[trigger] entries@[j]),
            None => forall|j: int| 0 <= j < entries@.len() ==> !holds_logo(#[trigger] entries@[j]),
        },
{
    let mut i: usize = 0;
    while i < entries.len()
        invariant
            i <= entries@.len(),
            forall|j: int| 0 <= j < i ==> !holds_logo(#[trigger] entries@[j]),
        decreases entries.len() - i,
    {
        let found = match &entries[i] {
            Some(name) => {
                let s = name.as_str();
                if s.unicode_len() >= 4 {
                    let head = s.substring_char(0, 4);
                    proof {
                        reveal_strlit("logo");
                    }
                    assert(head@ =~= name@.take(4));
                    let eq = str_equal(head, "logo");
                    assert("logo"@ =~= seq!['l', 'o', 'g', 'o']);
                    assert(eq == is_logo_file_name(name@));
                    eq
                } else {
                    false
                }
            },
            None => false,
        };
        assert(found == holds_logo(entries@[i as int]));
        if found {
            return Some(i);
        }
        i = i + 1;
    }
    None
}

/// A file holds the logo exactly when its name begins with the text `logo`, letter
/// case included.
pub proof fn lemma_logo_file_names(name: Seq<char>)
    ensures
        is_logo_file_name(name) <==> name.len() >= 4 && name.take(4) == "logo"@,
        name.len() >= 1 && name[0] != 'l' ==> !is_logo_file_name(name),
{
    reveal_strlit("logo");
    assert("logo"@ =~= seq!['l', 'o', 'g', 'o']);
    if name.len() >= 1 && name[0] != 'l' && name.len() >= 4 {
        assert(name.take(4)[0] == name[0]);
    }
}

} // verus!
