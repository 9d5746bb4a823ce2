//! The named fonts of a user interface and the choice of a default font.
use vstd::prelude::*;
use vstd::hash_map::StringHashMap;

verus! {

/// The fonts of a user interface by name, with a default font. `F` is a
/// font.
#[verifier::reject_recursive_types(F)]
pub struct FontSystem<F> {
    fonts: StringHashMap<F>,
    default_font_name: Option<String>,
}

/// The fonts as plain values: the fonts by name and the default font's
/// name.
pub struct FontsView<F> {
    pub fonts: Map<Seq<char>, F>,
    pub default_name: Option<Seq<char>>,
}

impl<F> View for FontSystem<F> {
    type V = FontsView<F>;

    closed spec fn view(&self) -> FontsView<F> {
        FontsView {
            fonts: self.fonts@,
            default_name: match &self.default_font_name {
                Some(n) => Some(n@),
                None => None,
            },
        }
    }
}

/// The invariant of the fonts: the default font is one of the fonts, and
/// there is a default font as soon as there is any font.
pub open spec fn fonts_wf<F>(v: FontsView<F>) -> bool {
    &&& v.default_name matches Some(n) ==> v.fonts.contains_key(n)
    &&& v.default_name is None ==> v.fonts == Map::<Seq<char>, F>::empty()
}

impl<F> FontSystem<F> {
    /// The fonts' invariant holds of every font system.
    #[verifier::type_invariant]
    spec fn fonts_inv(self) -> bool {
        fonts_wf(self@)
    }

    /// No fonts.
    pub fn new() -> (s: Self)
        ensures
            s@.fonts == Map::<Seq<char>, F>::empty(),
            s@.default_name is None,
            fonts_wf(s@),
    {
        FontSystem { fonts: StringHashMap::new(), default_font_name: None }
    }

    /// Adds (or replaces) the font `name`. The first font added becomes the
    /// default font.
    pub fn add_font(&mut self, name: String, font: F)
        ensures
            fonts_wf(final(self)@),
            final(self)@.fonts == old(self)@.fonts.insert(name@, font),
            final(self)@.default_name == match old(self)@.default_name {
                Some(n) => Some(n),
                None => Some(name@),
            },
    {
        proof {
            use_type_invariant(&*self);
        }
        let mut taken = FontSystem::new();
        std::mem::swap(self, &mut taken);
        let FontSystem { mut fonts, mut default_font_name } = taken;
        if default_font_name.is_none() {
            default_font_name = Some(name.clone());
        }
        fonts.insert(name, font);
        *self = FontSystem { fonts, default_font_name };
    }

    /// Makes `name` the default font when there is a font of that name, and
    /// says whether there is.
    pub fn set_default_font(&mut self, name: &str) -> (b: bool)
        ensures
            fonts_wf(final(self)@),
            b == old(self)@.fonts.contains_key(name@),
            final(self)@.fonts == old(self)@.fonts,
            final(self)@.default_name == (if b {
                Some(name@)
            } else {
                old(self)@.default_name
            }),
    {
        proof {
            use_type_invariant(&*self);
        }
        if self.fonts.contains_key(name) {
            self.default_font_name = Some(name.to_owned());
            true
        } else {
            false
        }
    }

    /// The font `name`, if there is one.
    pub fn get_font(&self, name: &str) -> (r: Option<&F>)
        ensures
            match r {
                Some(f) => self@.fonts.contains_key(name@) && *f == self@.fonts[name@],
                None => !self@.fonts.contains_key(name@),
            },
    {
        self.fonts.get(name)
    }

    /// The default font, if there is one.
    pub fn default_font(&self) -> (r: Option<&F>)
        ensures
            match self@.default_name {
                Some(n) => r matches Some(f) && *f == self@.fonts[n],
                None => r is None,
            },
    {
        proof {
            use_type_invariant(self);
        }
        match &self.default_font_name {
            Some(name) => self.get_font(name.as_str()),
            None => None,
        }
    }
}

/// Once any font has been added, there is a default font, and it is one of
/// the added fonts.
pub proof fn lemma_default_exists<F>(v: FontsView<F>, name: Seq<char>)
    requires
        fonts_wf(v),
        v.fonts.contains_key(name),
    ensures
        v.default_name matches Some(n) && v.fonts.contains_key(n),
{
}


/// Adding a font makes it the font under its name; the first font added
/// becomes the default and a later one leaves the default as it was; the
/// fonts under other names stay as they were.
pub proof fn lemma_add_font_read_back<F>(v: FontsView<F>, name: Seq<char>, font: F)
    requires
        fonts_wf(v),
    ensures
        ({
            let after = FontsView {
                fonts: v.fonts.insert(name, font),
                default_name: match v.default_name {
                    Some(n) => Some(n),
                    None => Some(name),
                },
            };
            &&& fonts_wf(after)
            &&& after.fonts.contains_key(name) && after.fonts[name] == font
            &&& v.default_name is None ==> after.default_name == Some(name) && after.fonts[name] == font
            &&& forall|k: Seq<char>|
                k != name ==> (#[trigger] after.fonts.contains_key(k) == v.fonts.contains_key(k) && (
                v.fonts.contains_key(k) ==> after.fonts[k] == v.fonts[k]))
        }),
{
}

} // verus!
