//! Card color themes.

use vstd::prelude::*;

use super::same_text;

verus! {

/// The colors of a card.
#[derive(Debug, Clone)]
pub struct Theme {
    pub name: String,
    pub title: String,
    pub text: String,
    pub icon: String,
    pub bg: String,
    pub border: Option<String>,
    pub ring: Option<String>,
}

pub struct ThemeView {
    pub name: Seq<char>,
    pub title: Seq<char>,
    pub text: Seq<char>,
    pub icon: Seq<char>,
    pub bg: Seq<char>,
    pub border: Option<Seq<char>>,
    pub ring: Option<Seq<char>>,
}

pub open spec fn opt_text(o: Option<String>) -> Option<Seq<char>> {
    match o {
        Some(s) => Some(s@),
        None => None,
    }
}

impl View for Theme {
    type V = ThemeView;

    open spec fn view(&self) -> ThemeView {
        ThemeView {
            name: self.name@,
            title: self.title@,
            text: self.text@,
            icon: self.icon@,
            bg: self.bg@,
            border: opt_text(self.border),
            ring: opt_text(self.ring),
        }
    }
}

pub open spec fn default_theme_spec() -> ThemeView {
    ThemeView {
        name: "default"@,
        title: "#2f80ed"@,
        icon: "#4c71f2"@,
        text: "#434d58"@,
        bg: "#fffefe"@,
        border: Some("#e4e2e2"@),
        ring: Some("#2f80ed"@),
    }
}

pub open spec fn onedark_theme_spec() -> ThemeView {
    ThemeView {
        name: "onedark"@,
        title: "#e4bf7a"@,
        icon: "#8eb573"@,
        text: "#df6d74"@,
        bg: "#282c34"@,
        border: None,
        ring: None,
    }
}

fn copy_opt(o: &Option<String>) -> (r: Option<String>)
    ensures
        opt_text(r) == opt_text(*o),
{
    match o {
        Some(s) => Some(s.clone()),
        None => None,
    }
}

impl Theme {
    /// The built-in light theme.
    pub fn light() -> (r: Theme)
        ensures
            r@ == default_theme_spec(),
    {
        Theme {
            name: String::from_str("default"),
            title: String::from_str("#2f80ed"),
            icon: String::from_str("#4c71f2"),
            text: String::from_str("#434d58"),
            bg: String::from_str("#fffefe"),
            border: Some(String::from_str("#e4e2e2")),
            ring: Some(String::from_str("#2f80ed")),
        }
    }

    /// The built-in dark theme.
    pub fn onedark() -> (r: Theme)
        ensures
            r@ == onedark_theme_spec(),
    {
        Theme {
            name: String::from_str("onedark"),
            title: String::from_str("#e4bf7a"),
            icon: String::from_str("#8eb573"),
            text: String::from_str("#df6d74"),
            bg: String::from_str("#282c34"),
            border: None,
            ring: None,
        }
    }

    /// A theme named `name` with the light theme's colors and neither border
    /// nor ring color, to be filled in color by color.
    pub fn named(name: String) -> (r: Theme)
        ensures
            r@ == (ThemeView { name: name@, border: None, ring: None, ..default_theme_spec() }),
    {
        let base = Theme::light();
        Theme { name, border: None, ring: None, ..base }
    }

    /// A copy of the theme.
    pub fn duplicate(&self) -> (r: Theme)
        ensures
            r@ == self@,
    {
        Theme {
            name: self.name.clone(),
            title: self.title.clone(),
            text: self.text.clone(),
            icon: self.icon.clone(),
            bg: self.bg.clone(),
            border: copy_opt(&self.border),
            ring: copy_opt(&self.ring),
        }
    }

    /// Sets the color named `key` ("title", "icon", "text", "bg", "border"
    /// or "ring"); any other key is ignored.
    pub fn set_color(&mut self, key: &str, value: String)
        ensures
            final(self)@ == (if key@ == "title"@ {
                ThemeView { title: value@, ..old(self)@ }
            } else if key@ == "icon"@ {
                ThemeView { icon: value@, ..old(self)@ }
            } else if key@ == "text"@ {
                ThemeView { text: value@, ..old(self)@ }
            } else if key@ == "bg"@ {
                ThemeView { bg: value@, ..old(self)@ }
            } else if key@ == "border"@ {
                ThemeView { border: Some(value@), ..old(self)@ }
            } else if key@ == "ring"@ {
                ThemeView { ring: Some(value@), ..old(self)@ }
            } else {
                old(self)@
            }),
    {
        if same_text(key, "title") {
            self.title = value;
        } else if same_text(key, "icon") {
            self.icon = value;
        } else if same_text(key, "text") {
            self.text = value;
        } else if same_text(key, "bg") {
            self.bg = value;
        } else if same_text(key, "border") {
            self.border = Some(value);
        } else if same_text(key, "ring") {
            self.ring = Some(value);
        }
    }
}

impl Default for Theme {
    fn default() -> (r: Theme)
        ensures
            r@ == default_theme_spec(),
    {
        Theme::light()
    }
}

/// The last index in `themes` of a theme named `wanted`, or 0 when none is.
pub open spec fn default_index(themes: Seq<Theme>, wanted: Seq<char>) -> int
    decreases themes.len(),
{
    if themes.len() == 0 {
        0
    } else if themes.last().name@ == wanted {
        themes.len() - 1
    } else {
        default_index(themes.drop_last(), wanted)
    }
}

/// Some theme is named `n`.
pub open spec fn has_theme(themes: Seq<Theme>, n: Seq<char>) -> bool {
    exists|i: int| 0 <= i < themes.len() && #[trigger] themes[i].name@ == n
}

/// The index of the first theme named `n` (0 when none is).
pub open spec fn first_theme(themes: Seq<Theme>, n: Seq<char>) -> int
    decreases themes.len(),
{
    if themes.len() == 0 {
        0
    } else if themes[0].name@ == n {
        0
    } else {
        1 + first_theme(themes.drop_first(), n)
    }
}

proof fn lemma_first_theme(themes: Seq<Theme>, n: Seq<char>, i: int)
    requires
        0 <= i < themes.len(),
        themes[i].name@ == n,
        forall|j: int| 0 <= j < i ==> #[trigger] themes[j].name@ != n,
    ensures
        has_theme(themes, n),
        first_theme(themes, n) == i,
    decreases i,
{
    if i > 0 {
        let t = themes.drop_first();
        assert(t[i - 1] == themes[i]);
        assert forall|j: int| 0 <= j < i - 1 implies #[trigger] t[j].name@ != n by {
            assert(t[j] == themes[j + 1]);
        }
        lemma_first_theme(t, n, i - 1);
    }
}

/// The available themes and which of them is the default.
#[derive(Debug)]
pub struct Themes {
    inner: Vec<Theme>,
    default_idx: usize,
}

impl Themes {
    #[verifier::type_invariant]
    spec fn inv(&self) -> bool {
        self.default_idx < self.inner@.len()
    }

    pub closed spec fn items_spec(&self) -> Seq<Theme> {
        self.inner@
    }

    pub closed spec fn default_index_spec(&self) -> int {
        self.default_idx as int
    }

    /// The themes in `themes`, with the last one named `default_name` as the
    /// default (the first when none is). `None` when the list is empty.
    pub fn from_list(themes: Vec<Theme>, default_name: &str) -> (r: Option<Themes>)
        ensures
            themes@.len() == 0 <==> r is None,
            r matches Some(t) ==> t.items_spec() == themes@
                && t.default_index_spec() == default_index(themes@, default_name@),
    {
        if themes.len() == 0 {
            return None;
        }
        let wanted = String::from_str(default_name);
        let mut default_idx: usize = 0;
        let mut i: usize = 0;
        while i < themes.len()
            invariant
                i <= themes@.len(),
                themes@.len() > 0,
                wanted@ == default_name@,
                default_idx < themes@.len(),
                default_idx == default_index(themes@.take(i as int), default_name@),
            decreases themes@.len() - i,
        {
            proof {
                assert(themes@.take(i + 1).drop_last() =~= themes@.take(i as int));
                assert(themes@.take(i + 1).last() == themes@[i as int]);
            }
            if themes[i].name == wanted {
                default_idx = i;
            }
            i = i + 1;
        }
        proof {
            assert(themes@.take(i as int) =~= themes@);
        }
        Some(Themes { inner: themes, default_idx })
    }

    /// All themes.
    pub fn items(&self) -> (r: &Vec<Theme>)
        ensures
            r@ == self.items_spec(),
    {
        &self.inner
    }

    /// The number of themes.
    pub fn len(&self) -> (r: usize)
        ensures
            r == self.items_spec().len(),
    {
        self.inner.len()
    }

    /// The default theme.
    pub fn default(&self) -> (r: &Theme)
        ensures
            0 <= self.default_index_spec() < self.items_spec().len(),
            *r == self.items_spec()[self.default_index_spec()],
    {
        proof { use_type_invariant(self); }
        &self.inner[self.default_idx]
    }

    /// A copy of the theme named `name`; the default theme when no name is
    /// given or no theme has it. The first theme of that name wins.
    pub fn find(&self, name: Option<&str>) -> (r: Theme)
        ensures
            0 <= self.default_index_spec() < self.items_spec().len(),
            r@ == match name {
                Some(n) => if has_theme(self.items_spec(), n@) {
                    self.items_spec()[first_theme(self.items_spec(), n@)]@
                } else {
                    self.items_spec()[self.default_index_spec()]@
                },
                None => self.items_spec()[self.default_index_spec()]@,
            },
    {
        proof { use_type_invariant(self); }
        if let Some(n) = name {
            let wanted = String::from_str(n);
            let mut i: usize = 0;
            while i < self.inner.len()
                invariant
                    i <= self.inner@.len(),
                    wanted@ == n@,
                    name == Some(n),
                    0 <= self.default_index_spec() < self.items_spec().len(),
                    forall|j: int| 0 <= j < i ==> #[trigger] self.inner@[j].name@ != n@,
                decreases self.inner@.len() - i,
            {
                if self.inner[i].name == wanted {
                    proof { lemma_first_theme(self.inner@, n@, i as int); }
                    let r = self.inner[i].duplicate();
                    return r;
                }
                i = i + 1;
            }
        }
        self.inner[self.default_idx].duplicate()
    }
}

impl Themes {
    /// The built-in themes, light first and default.
    pub fn builtin() -> (r: Themes)
        ensures
            r.items_spec().len() == 2,
            r.items_spec()[0]@ == default_theme_spec(),
            r.items_spec()[1]@ == onedark_theme_spec(),
            r.default_index_spec() == 0,
    {
        Themes { inner: vec![Theme::light(), Theme::onedark()], default_idx: 0 }
    }
}

} // verus!
