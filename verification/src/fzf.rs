//! Display options for the external fuzzy picker, and the interpretation
//! of its outcome. Running the picker is the caller's business; this
//! module only builds its argument list and reads its result.
use crate::text::concat2;
use crate::GError;
use vstd::prelude::*;
use vstd::string::*;

verus! {

/// How the picker is displayed. Constructed fully at each call site.
pub struct FzfOptions {
    pub height: Option<String>,
    pub reverse: bool,
    pub border: bool,
    pub prompt: Option<String>,
    pub preview: Option<String>,
}

/// The model of an options value.
pub struct FzfOptionsView {
    pub height: Option<Seq<char>>,
    pub reverse: bool,
    pub border: bool,
    pub prompt: Option<Seq<char>>,
    pub preview: Option<Seq<char>>,
}

impl View for FzfOptions {
    type V = FzfOptionsView;

    open spec fn view(&self) -> FzfOptionsView {
        FzfOptionsView {
            height: match self.height {
                Some(h) => Some(h@),
                None => None,
            },
            reverse: self.reverse,
            border: self.border,
            prompt: match self.prompt {
                Some(p) => Some(p@),
                None => None,
            },
            preview: match self.preview {
                Some(p) => Some(p@),
                None => None,
            },
        }
    }
}

/// The model of the default options: forty percent height, reversed order,
/// a border, no prompt, no preview.
pub open spec fn default_options() -> FzfOptionsView {
    FzfOptionsView {
        height: Some("40%"@),
        reverse: true,
        border: true,
        prompt: None,
        preview: None,
    }
}

impl Default for FzfOptions {
    /// The default display: forty percent height, reversed order, a border.
    fn default() -> (r: FzfOptions)
        ensures
            r@ == default_options(),
    {
        FzfOptions {
            height: Some("40%".to_owned()),
            reverse: true,
            border: true,
            prompt: None,
            preview: None,
        }
    }
}

/// The flag list that an options value stands for, in order: height,
/// reverse, border, prompt, preview, each only when set.
pub open spec fn args_of(o: FzfOptionsView) -> Seq<Seq<char>> {
    let h = match o.height {
        Some(h) => seq!["--height="@ + h],
        None => Seq::<Seq<char>>::empty(),
    };
    let r = if o.reverse {
        seq!["--reverse"@]
    } else {
        Seq::<Seq<char>>::empty()
    };
    let b = if o.border {
        seq!["--border"@]
    } else {
        Seq::<Seq<char>>::empty()
    };
    let p = match o.prompt {
        Some(p) => seq!["--prompt="@ + p],
        None => Seq::<Seq<char>>::empty(),
    };
    let v = match o.preview {
        Some(p) => seq!["--preview="@ + p],
        None => Seq::<Seq<char>>::empty(),
    };
    h + r + b + p + v
}

impl FzfOptions {
    /// The command-line flags these options stand for, as `args_of`
    /// describes them.
    pub fn to_args(&self) -> (r: Vec<String>)
        ensures
            r.deep_view() == args_of(self@),
    {
        let mut args: Vec<String> = Vec::new();
        match &self.height {
            Some(h) => {
                args.push(concat2("--height=", h.as_str()));
            },
            None => {},
        }
        if self.reverse {
            args.push("--reverse".to_owned());
        }
        if self.border {
            args.push("--border".to_owned());
        }
        match &self.prompt {
            Some(p) => {
                args.push(concat2("--prompt=", p.as_str()));
            },
            None => {},
        }
        match &self.preview {
            Some(p) => {
                args.push(concat2("--preview=", p.as_str()));
            },
            None => {},
        }
        proof {
            assert(args.deep_view() =~= args_of(self@));
        }
        args
    }
}

/// The options `select` runs the picker with: the defaults plus the given
/// prompt followed by a colon and a blank.
pub open spec fn select_options_of(prompt: Seq<char>) -> FzfOptionsView {
    FzfOptionsView {
        height: Some("40%"@),
        reverse: true,
        border: true,
        prompt: Some(prompt + ": "@),
        preview: None,
    }
}

/// Builds the options for a `select` run over the given prompt.
pub fn select_options(prompt: &str) -> (r: FzfOptions)
    ensures
        r@ == select_options_of(prompt@),
{
    FzfOptions {
        height: Some("40%".to_owned()),
        reverse: true,
        border: true,
        prompt: Some(concat2(prompt, ": ")),
        preview: None,
    }
}

/// Reads a mandatory pick: the chosen line as is, or `NoSelection` when
/// the picker returned nothing.
pub fn select(outcome: Option<String>) -> (r: Result<String, GError>)
    ensures
        match outcome {
            Some(line) => r == Ok::<String, GError>(line),
            None => r == Err::<String, GError>(GError::NoSelection),
        },
{
    match outcome {
        Some(line) => Ok(line),
        None => Err(GError::NoSelection),
    }
}

} // verus!
