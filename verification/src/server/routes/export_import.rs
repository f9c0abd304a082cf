//! The settings-sanitizing rules of the settings routes: user-provided
//! preferences are held against the server's available options and its
//! defaults. Reading the option folders and serving the routes is I/O and
//! stays outside the library.
use vstd::prelude::*;
use vstd::string::*;

use crate::text::replace;
use crate::text::replace_spec;
use crate::text::vec_contains_str;

verus! {

/// The mathematical value of a [`Cookie`].
pub ghost struct CookieView {
    pub theme: Seq<char>,
    pub colorscheme: Seq<char>,
    pub animation: Option<Seq<char>>,
    pub engines: Seq<Seq<char>>,
    pub safe_search_level: nat,
}

/// The user-adjustable preferences carried in the settings cookie.
#[derive(Clone, Debug)]
pub struct Cookie {
    pub theme: String,
    pub colorscheme: String,
    pub animation: Option<String>,
    pub engines: Vec<String>,
    pub safe_search_level: u8,
}

impl View for Cookie {
    type V = CookieView;

    open spec fn view(&self) -> CookieView {
        CookieView {
            theme: self.theme@,
            colorscheme: self.colorscheme@,
            animation: self.animation.deep_view(),
            engines: self.engines.deep_view(),
            safe_search_level: self.safe_search_level as nat,
        }
    }
}

/// The server's style defaults, as its configuration names them.
#[derive(Clone, Debug)]
pub struct StyleDefaults {
    pub theme: String,
    pub colorscheme: String,
    pub animation: Option<String>,
}

/// What sanitizing leaves of the preferences: the first invalid style
/// option (theme first, then colorscheme, then animation) is replaced by
/// the server's default and the later ones are left as they came; unknown
/// engines are dropped, keeping order; a safe-search level above one falls
/// back to zero.
pub open spec fn sanitize_spec(
    c: CookieView,
    themes: Seq<Seq<char>>,
    colorschemes: Seq<Seq<char>>,
    animations: Seq<Seq<char>>,
    available_engines: Seq<Seq<char>>,
    defaults_theme: Seq<char>,
    defaults_colorscheme: Seq<char>,
    defaults_animation: Option<Seq<char>>,
) -> CookieView {
    let theme = if !themes.contains(c.theme) {
        defaults_theme
    } else {
        c.theme
    };
    let colorscheme = if themes.contains(c.theme) && !colorschemes.contains(c.colorscheme) {
        defaults_colorscheme
    } else {
        c.colorscheme
    };
    let animation = if themes.contains(c.theme) && colorschemes.contains(c.colorscheme)
        && !animations.contains(c.animation->0) {
        defaults_animation
    } else {
        c.animation
    };
    CookieView {
        theme,
        colorscheme,
        animation,
        engines: c.engines.filter(|e: Seq<char>| available_engines.contains(e)),
        safe_search_level: if c.safe_search_level < 2 {
            c.safe_search_level
        } else {
            0
        },
    }
}

/// Sanitize user-provided preferences against the available option lists
/// and the server's defaults.
pub fn sanitize(
    settings: &mut Cookie,
    themes: &Vec<String>,
    colorschemes: &Vec<String>,
    animations: &Vec<String>,
    available_engines: &Vec<String>,
    defaults: &StyleDefaults,
)
    requires
        themes.deep_view().contains(old(settings)@.theme) && colorschemes.deep_view().contains(
            old(settings)@.colorscheme,
        ) ==> old(settings)@.animation is Some,
    ensures
        final(settings)@ == sanitize_spec(
            old(settings)@,
            themes.deep_view(),
            colorschemes.deep_view(),
            animations.deep_view(),
            available_engines.deep_view(),
            defaults.theme@,
            defaults.colorscheme@,
            defaults.animation.deep_view(),
        ),
{
    if !vec_contains_str(themes, settings.theme.as_str()) {
        settings.theme = defaults.theme.clone();
    } else if !vec_contains_str(colorschemes, settings.colorscheme.as_str()) {
        settings.colorscheme = defaults.colorscheme.clone();
    } else {
        let current = match &settings.animation {
            Some(a) => a.clone(),
            None => unreached(),
        };
        if !vec_contains_str(animations, current.as_str()) {
            settings.animation = defaults.animation.clone();
        }
    }
    let ghost old_engines = settings.engines.deep_view();
    let mut kept: Vec<String> = Vec::new();
    let mut i: usize = 0;
    proof {
        assert(old_engines.take(0).filter(|e: Seq<char>| available_engines.deep_view().contains(e))
            =~= Seq::<Seq<char>>::empty());
        assert(kept.deep_view() =~= Seq::<Seq<char>>::empty());
    }
    while i < settings.engines.len()
        invariant
            0 <= i <= settings.engines@.len(),
            old_engines == settings.engines.deep_view(),
            old_engines.len() == settings.engines@.len(),
            kept.deep_view() == old_engines.take(i as int).filter(
                |e: Seq<char>| available_engines.deep_view().contains(e),
            ),
        decreases settings.engines@.len() - i,
    {
        proof {
            assert(old_engines[i as int] == settings.engines@[i as int]@);
            assert(old_engines.take(i + 1).drop_last() =~= old_engines.take(i as int));
            assert(old_engines.take(i + 1).last() == old_engines[i as int]);
            reveal(Seq::filter);
        }
        if vec_contains_str(available_engines, settings.engines[i].as_str()) {
            let ghost prev = kept.deep_view();
            kept.push(settings.engines[i].clone());
            proof {
                assert(kept.deep_view() =~= prev.push(old_engines[i as int]));
            }
        }
        i = i + 1;
    }
    proof {
        assert(old_engines.take(old_engines.len() as int) =~= old_engines);
    }
    settings.engines = kept;
    if settings.safe_search_level >= 2 {
        settings.safe_search_level = 0;
    }
}

/// The option names a folder listing yields: each file name with its style
/// suffix removed, and, for the animations folder, the empty option that
/// stands for no animation.
pub open spec fn style_option_list_spec(file_names: Seq<Seq<char>>, is_animations: bool) -> Seq<
    Seq<char>,
> {
    let stripped = file_names.map_values(|n: Seq<char>| replace_spec(n, ".css"@, ""@));
    if is_animations {
        stripped.push(Seq::empty())
    } else {
        stripped
    }
}

/// Build the list of selectable option names from a folder listing.
pub fn style_option_list(file_names: &Vec<String>, is_animations: bool) -> (r: Vec<String>)
    ensures
        r.deep_view() == style_option_list_spec(file_names.deep_view(), is_animations),
{
    proof {
        reveal_strlit(".css");
    }
    let ghost names = file_names.deep_view();
    let mut out: Vec<String> = Vec::new();
    let mut i: usize = 0;
    while i < file_names.len()
        invariant
            0 <= i <= file_names@.len(),
            names == file_names.deep_view(),
            names.len() == file_names@.len(),
            out.deep_view() =~= names.take(i as int).map_values(
                |n: Seq<char>| replace_spec(n, ".css"@, ""@),
            ),
            ".css"@.len() > 0,
        decreases file_names@.len() - i,
    {
        proof {
            assert(names[i as int] == file_names@[i as int]@);
        }
        let ghost prev = out.deep_view();
        let stripped = replace(file_names[i].as_str(), ".css", "");
        out.push(stripped);
        proof {
            assert(out.deep_view() =~= prev.push(replace_spec(names[i as int], ".css"@, ""@)));
            assert(out.deep_view() =~= names.take(i + 1).map_values(
                |n: Seq<char>| replace_spec(n, ".css"@, ""@),
            ));
        }
        i = i + 1;
    }
    proof {
        assert(names.take(names.len() as int) =~= names);
    }
    if is_animations {
        let ghost prev = out.deep_view();
        out.push(String::new());
        proof {
            assert(out.deep_view() =~= prev.push(Seq::empty()));
        }
    }
    out
}

} // verus!
