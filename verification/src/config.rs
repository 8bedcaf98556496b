//! The mode configuration: named transformation modes, each with an
//! instruction text, and a designated default mode.

use vstd::prelude::*;
use vstd::string::*;
use crate::error::PipelineError;

verus! {

/// The mathematical content of a [`PromptsConfig`]: the default mode name
/// and the modes as an ordered sequence of (name, instruction) pairs.
#[verifier::ext_equal]
pub ghost struct ConfigModel {
    pub default_mode: Seq<char>,
    pub modes: Seq<(Seq<char>, Seq<char>)>,
}

/// The (name, instruction) pairs of a mode list, as character sequences.
pub open spec fn pairs_view(ps: Seq<(String, String)>) -> Seq<(Seq<char>, Seq<char>)> {
    ps.map_values(|p: (String, String)| (p.0@, p.1@))
}

/// All names in the mode list are distinct.
pub open spec fn unique_names(ms: Seq<(Seq<char>, Seq<char>)>) -> bool {
    forall|i: int, j: int|
        0 <= i < j < ms.len() ==> (#[trigger] ms[i]).0 != (#[trigger] ms[j]).0
}

/// The first position in `modes` whose name is `name`, or `modes.len()`
/// when no entry carries that name.
pub open spec fn first_index(modes: Seq<(Seq<char>, Seq<char>)>, name: Seq<char>) -> int
    decreases modes.len(),
{
    if modes.len() == 0 {
        0
    } else if modes[0].0 == name {
        0
    } else {
        1 + first_index(modes.drop_first(), name)
    }
}

impl ConfigModel {
    /// The mode names, in configuration order.
    pub open spec fn names(self) -> Seq<Seq<char>> {
        self.modes.map_values(|p: (Seq<char>, Seq<char>)| p.0)
    }

    /// Mode names are unique: the traversal order is then well defined and
    /// cycling can visit every mode exactly once.
    pub open spec fn wf(self) -> bool {
        unique_names(self.modes)
    }

    /// Whether a mode of this name is configured.
    pub open spec fn contains_mode(self, name: Seq<char>) -> bool {
        exists|i: int| 0 <= i < self.modes.len() && self.modes[i].0 == name
    }

    /// The instruction configured for `name`, if any.
    pub open spec fn instruction_of(self, name: Seq<char>) -> Option<Seq<char>> {
        if self.contains_mode(name) {
            Some(self.modes[first_index(self.modes, name)].1)
        } else {
            None
        }
    }
}

/// `first_index` finds `name` at position `i` when `modes[i]` carries it and
/// no earlier entry does.
pub proof fn lemma_first_index_at(
    modes: Seq<(Seq<char>, Seq<char>)>,
    name: Seq<char>,
    i: int,
)
    requires
        0 <= i < modes.len(),
        modes[i].0 == name,
        forall|j: int| 0 <= j < i ==> modes[j].0 != name,
    ensures
        first_index(modes, name) == i,
    decreases i,
{
    if i > 0 {
        assert(modes[0].0 != name);
        lemma_first_index_at(modes.drop_first(), name, i - 1);
        assert(modes.drop_first()[i - 1] == modes[i]);
        assert(forall|j: int| 0 <= j < i - 1 ==> modes.drop_first()[j] == modes[j + 1]);
    }
}

/// When `name` is present, `first_index` points at an entry carrying it.
pub proof fn lemma_first_index_hits(modes: Seq<(Seq<char>, Seq<char>)>, name: Seq<char>)
    requires
        exists|i: int| 0 <= i < modes.len() && modes[i].0 == name,
    ensures
        0 <= first_index(modes, name) < modes.len(),
        modes[first_index(modes, name)].0 == name,
    decreases modes.len(),
{
    if modes.len() > 0 && modes[0].0 != name {
        let i = choose|i: int| 0 <= i < modes.len() && modes[i].0 == name;
        assert(modes.drop_first()[i - 1] == modes[i]);
        lemma_first_index_hits(modes.drop_first(), name);
        assert(modes[first_index(modes, name)]
            == modes.drop_first()[first_index(modes.drop_first(), name)]);
    }
}

/// A mapping of named transformation modes to instruction texts, with a
/// designated default mode. Entries keep the order they were configured in;
/// that order drives the mode cursor.
#[derive(Debug, Clone, PartialEq, Eq)]
pub struct PromptsConfig {
    pub default_mode: String,
    pub modes: Vec<(String, String)>,
}

impl View for PromptsConfig {
    type V = ConfigModel;

    open spec fn view(&self) -> ConfigModel {
        ConfigModel { default_mode: self.default_mode@, modes: pairs_view(self.modes@) }
    }
}

/// The built-in mode set written to disk when no config file exists yet:
/// a summarizing mode (the default), a bullet-point mode, a terse rewrite
/// mode and two translation modes.
pub open spec fn default_config_model() -> ConfigModel {
    ConfigModel {
        default_mode: "tldr"@,
        modes: seq![
            ("tldr"@, "Return a 2-sentence summary."@),
            ("bullets"@, "Return max 5 action-oriented bullets."@),
            ("direct"@, "Rewrite, removing filler, max 120 chars."@),
            ("hebrew"@, "Translate to Hebrew, keep formatting."@),
            ("spanish"@, "Translate to Spanish, keep formatting."@),
        ],
    }
}

impl Default for PromptsConfig {
    /// The built-in default configuration.
    fn default() -> (c: PromptsConfig)
        ensures
            c@ == default_config_model(),
            c@.wf(),
    {
        let mut modes: Vec<(String, String)> = Vec::new();
        modes.push((String::from_str("tldr"), String::from_str("Return a 2-sentence summary.")));
        modes.push((
            String::from_str("bullets"),
            String::from_str("Return max 5 action-oriented bullets."),
        ));
        modes.push((
            String::from_str("direct"),
            String::from_str("Rewrite, removing filler, max 120 chars."),
        ));
        modes.push((
            String::from_str("hebrew"),
            String::from_str("Translate to Hebrew, keep formatting."),
        ));
        modes.push((
            String::from_str("spanish"),
            String::from_str("Translate to Spanish, keep formatting."),
        ));
        let c = PromptsConfig { default_mode: String::from_str("tldr"), modes };
        proof {
            assert(c@.modes =~= default_config_model().modes);
            lemma_default_config_wf();
        }
        c
    }
}

/// The built-in mode names are pairwise distinct.
pub proof fn lemma_default_config_wf()
    ensures
        default_config_model().wf(),
{
    reveal_strlit("tldr");
    reveal_strlit("bullets");
    reveal_strlit("direct");
    reveal_strlit("hebrew");
    reveal_strlit("spanish");
    assert(default_config_model().wf()) by {
        let m = default_config_model().modes;
        assert(m[0].0.len() == 4);
        assert(m[1].0.len() == 7);
        assert(m[2].0.len() == 6);
        assert(m[3].0.len() == 6);
        assert(m[4].0.len() == 7);
        assert(m[2].0[0] == 'd');
        assert(m[3].0[0] == 'h');
        assert(m[1].0[0] == 'b');
        assert(m[4].0[0] == 's');
    }
}

impl PromptsConfig {
    /// The position of the mode named `name`, or `None` when it is not
    /// configured.
    pub fn find_mode(&self, name: &String) -> (r: Option<usize>)
        ensures
            match r {
                Some(i) => self@.contains_mode(name@) && i < self@.modes.len()
                    && i == first_index(self@.modes, name@),
                None => !self@.contains_mode(name@),
            },
    {
        let mut i: usize = 0;
        while i < self.modes.len()
            invariant
                i <= self.modes@.len(),
                self@.modes.len() == self.modes@.len(),
                forall|j: int| 0 <= j < i ==> self@.modes[j].0 != name@,
            decreases self.modes@.len() - i,
        {
            if self.modes[i].0 == *name {
                proof {
                    assert(self@.modes[i as int].0 == name@);
                    lemma_first_index_at(self@.modes, name@, i as int);
                }
                return Some(i);
            }
            i = i + 1;
        }
        None
    }

    /// Load the configuration from the config file's content, or build the
    /// built-in defaults when there is no file yet.
    ///
    /// `existing` is the file's text, `None` when the file is absent. On
    /// success the second component is the JSON text that must be written
    /// to disk to persist the fresh defaults — `None` when the config came
    /// from the file, which is left as it is.
    pub fn load_or_init(existing: Option<&String>) -> (r: Result<
        (PromptsConfig, Option<String>),
        PipelineError,
    >)
        ensures
            match existing {
                Some(s) => match r {
                    Ok(p) => crate::codec::config_spec(s@) == Some(p.0@) && p.0@.wf()
                        && p.1 is None,
                    Err(e) => e == PipelineError::ConfigCorrupt && crate::codec::config_spec(s@)
                        is None,
                },
                None => r matches Ok(p) && p.0@ == default_config_model() && p.0@.wf() && (
                p.1 matches Some(t) && t@ == crate::codec::rendered_config(
                    default_config_model(),
                )),
            },
    {
        match existing {
            Some(s) => {
                match crate::codec::parse_config(s.as_str()) {
                    Ok(c) => Ok((c, None)),
                    Err(e) => Err(e),
                }
            },
            None => {
                let c = PromptsConfig::default();
                let rendered = crate::codec::render_config(&c);
                Ok((c, Some(rendered)))
            },
        }
    }

    /// The instruction configured for `name`, or `None` when the mode is
    /// not configured.
    pub fn instruction_for(&self, name: &String) -> (r: Option<String>)
        ensures
            match r {
                Some(s) => self@.instruction_of(name@) == Some(s@),
                None => self@.instruction_of(name@) is None,
            },
    {
        match self.find_mode(name) {
            Some(i) => Some(self.modes[i].1.clone()),
            None => None,
        }
    }
}

} // verus!
