//! Command-line input as plain values: the optional subcommand, the three
//! optional overrides, and the free-text prompt words.

use vstd::prelude::*;

use crate::persona::Persona;
use crate::provider::Provider;

verus! {

/// What one invocation supplied on the command line.  `None` in an override
/// means "no override", never "clear the value".
pub struct Args {
    pub command: Option<Commands>,
    /// Model override.
    pub model: Option<String>,
    /// Persona override.
    pub persona: Option<Persona>,
    /// API-key override.
    pub api_key: Option<String>,
    /// Remaining words, joined with single spaces into the user prompt.
    pub args: Vec<String>,
}

/// The configuration subcommand.
pub enum Commands {
    Use { target: UseTarget },
}

/// What a `use` subcommand updates.
pub enum UseTarget {
    /// Set the active provider.
    Provider { name: Provider },
    /// Set the model for the active provider.
    Model { name: String },
    /// Set the API key for the active provider.
    Key { key: String },
}

/// The override fields of [`Args`], as plain character sequences.  The
/// subcommand and prompt words play no part in resolution and are not
/// modelled here.
#[verifier::ext_equal]
pub ghost struct ArgsView {
    pub model: Option<Seq<char>>,
    pub persona: Option<Persona>,
    pub api_key: Option<Seq<char>>,
}

impl View for Args {
    type V = ArgsView;

    open spec fn view(&self) -> ArgsView {
        ArgsView {
            model: match self.model {
                Some(m) => Some(m@),
                None => None,
            },
            persona: self.persona,
            api_key: match self.api_key {
                Some(k) => Some(k@),
                None => None,
            },
        }
    }
}

impl ArgsView {
    /// Overrides that leave every persisted value in force.
    pub open spec fn no_overrides(self) -> bool {
        self.model is None && self.persona is None && self.api_key is None
    }
}

} // verus!

// The free-text prompt: the remaining words joined with single spaces.
verus! {

/// The words joined with single spaces: no leading, trailing or doubled
/// separator.
pub open spec fn spec_join_spaces(parts: Seq<Seq<char>>) -> Seq<char>
    decreases parts.len(),
{
    if parts.len() == 0 {
        Seq::empty()
    } else if parts.len() == 1 {
        parts[0]
    } else {
        parts[0] + seq![' '] + spec_join_spaces(parts.drop_first())
    }
}

/// Joining one more word appends a separator and the word.
proof fn lemma_join_spaces_snoc(parts: Seq<Seq<char>>, w: Seq<char>)
    requires
        parts.len() >= 1,
    ensures
        spec_join_spaces(parts.push(w)) == spec_join_spaces(parts) + seq![' '] + w,
    decreases parts.len(),
{
    if parts.len() == 1 {
        assert(parts.push(w).drop_first() =~= seq![w]);
        assert(parts.push(w)[0] == parts[0]);
        assert(seq![w][0] == w);
        assert(spec_join_spaces(seq![w]) == w);
    } else {
        lemma_join_spaces_snoc(parts.drop_first(), w);
        assert(parts.push(w).drop_first() =~= parts.drop_first().push(w));
        assert(parts.push(w)[0] == parts[0]);
        assert(parts[0] + seq![' '] + (spec_join_spaces(parts.drop_first()) + seq![' '] + w) =~= (
        parts[0] + seq![' '] + spec_join_spaces(parts.drop_first())) + seq![' '] + w);
    }
}

/// The user prompt: the remaining command-line words joined with single
/// spaces.
pub fn join_args(parts: &Vec<String>) -> (r: String)
    ensures
        r@ == spec_join_spaces(parts@.map_values(|s: String| s@)),
{
    let ghost views = parts@.map_values(|s: String| s@);
    let mut out = String::new();
    let n = parts.len();
    if n == 0 {
        proof {
            assert(out@ =~= spec_join_spaces(views));
        }
        return out;
    }
    out.append(parts[0].as_str());
    proof {
        assert(views.take(1) =~= seq![views[0]]);
        assert(out@ =~= spec_join_spaces(views.take(1)));
    }
    let mut i: usize = 1;
    while i < n
        invariant
            n == parts@.len(),
            1 <= i <= n,
            views == parts@.map_values(|s: String| s@),
            after_borrow(out)@ == spec_join_spaces(views.take(i as int)),
        decreases n - i,
    {
        out.push(' ');
        out.append(parts[i].as_str());
        proof {
            assert(views.take(i + 1) =~= views.take(i as int).push(views[i as int]));
            lemma_join_spaces_snoc(views.take(i as int), views[i as int]);
            assert(out@ =~= spec_join_spaces(views.take(i as int)) + seq![' '] + views[i as int]);
        }
        i = i + 1;
    }
    proof {
        assert(views.take(n as int) =~= views);
    }
    out
}

} // verus!
