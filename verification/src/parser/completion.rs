//! Completions: the ways in which the input can go on at a node.

use crate::tokenizer::Token;
use crate::util::contains_text;
use crate::util::lcp;
use crate::util::lemma_filter_push;
use crate::util::longest_common_prefix;
use crate::util::starting_with;
use crate::util::starts_with;
use crate::util::string_views;
use crate::util::views;
use vstd::prelude::*;

verus! {

/// Represents a single option returned by `complete`.
///
/// An option may be `complete`, which means that it is a whole value that
/// can be used as it is, whereas incomplete options are not valid values.
pub struct CompletionOption {
    /// String for this option.
    pub option_string: String,
    /// True if this option is complete and a valid value.
    pub complete: bool,
}

/// A `CompletionOption` by its characters.
pub struct CompletionOptionView {
    /// The characters of the option.
    pub option_string: Seq<char>,
    /// True if the option is complete and a valid value.
    pub complete: bool,
}

impl View for CompletionOption {
    type V = CompletionOptionView;

    open spec fn view(&self) -> CompletionOptionView {
        CompletionOptionView { option_string: self.option_string@, complete: self.complete }
    }
}

impl CompletionOption {
    /// CompletionOption constructor
    pub fn new(option_string: String, complete: bool) -> (option: CompletionOption)
        ensures
            option.option_string == option_string,
            option.complete == complete,
    {
        CompletionOption { option_string, complete }
    }
}

/// Represents the result of completing a node. Each valid completion
/// is represented by a `CompletionOption`.
///
/// This may be hinted by a pre-existing token.
///
/// If a completion is exhaustive, then only the `CompletionOption`s
/// provided are valid.
pub struct Completion<'text> {
    /// Value placeholder for help.
    pub help_symbol: String,
    /// Main help text.
    pub help_text: String,
    /// Token used to hint the completion, if provided.
    pub token: Option<Token<'text>>,
    /// Was this completion exhaustive? If yes, then only
    /// the given completion options are valid.
    pub exhaustive: bool,
    /// The actual completion options.
    pub options: Vec<CompletionOption>,
}

/// A `Completion` by its characters.
pub struct CompletionView<'text> {
    /// Value placeholder for help.
    pub help_symbol: Seq<char>,
    /// Main help text.
    pub help_text: Seq<char>,
    /// Token used to hint the completion, if provided.
    pub token: Option<Token<'text>>,
    /// Whether only the options given are valid.
    pub exhaustive: bool,
    /// The options.
    pub options: Seq<CompletionOptionView>,
}

impl<'text> View for Completion<'text> {
    type V = CompletionView<'text>;

    open spec fn view(&self) -> CompletionView<'text> {
        CompletionView {
            help_symbol: self.help_symbol@,
            help_text: self.help_text@,
            token: self.token,
            exhaustive: self.exhaustive,
            options: option_views(self.options@),
        }
    }
}

/// The options of a list, each by its characters.
pub open spec fn option_views(options: Seq<CompletionOption>) -> Seq<CompletionOptionView> {
    options.map_values(|o: CompletionOption| o@)
}

/// The text of the hinting token, if there is one.
pub open spec fn hint_of(token: Option<Token>) -> Option<Seq<char>> {
    match token {
        Some(t) => Some(t.text@),
        None => None,
    }
}

/// The members of `options` that start with the hint; all of them without a
/// hint.
pub open spec fn matching(options: Seq<Seq<char>>, hint: Option<Seq<char>>) -> Seq<Seq<char>> {
    match hint {
        Some(t) => options.filter(starting_with(t)),
        None => options,
    }
}

/// The incomplete options of a completion. They are the other options that
/// match the hint; then the hint itself, if the completion is not exhaustive
/// and no option that matches is the hint; then the longest common prefix of
/// all options, whether they match or not, if it is not the hint and not
/// among the options listed so far.
pub open spec fn incomplete_options(
    hint: Option<Seq<char>>,
    exhaustive: bool,
    complete: Seq<Seq<char>>,
    other: Seq<Seq<char>>,
) -> Seq<Seq<char>> {
    let kept = matching(complete, hint);
    let others = matching(other, hint);
    let hinted = match hint {
        Some(t) => if !exhaustive && !kept.contains(t) && !others.contains(t) {
            others.push(t)
        } else {
            others
        },
        None => others,
    };
    let prefix = lcp(complete + other);
    if !kept.contains(prefix) && !hinted.contains(prefix) && hint != Some(prefix) {
        hinted.push(prefix)
    } else {
        hinted
    }
}

/// The options of a completion: the complete options that match the hint,
/// marked complete, then the incomplete ones.
pub open spec fn completion_options(
    hint: Option<Seq<char>>,
    exhaustive: bool,
    complete: Seq<Seq<char>>,
    other: Seq<Seq<char>>,
) -> Seq<CompletionOptionView> {
    matching(complete, hint).map_values(
        |o: Seq<char>| CompletionOptionView { option_string: o, complete: true },
    ) + incomplete_options(hint, exhaustive, complete, other).map_values(
        |o: Seq<char>| CompletionOptionView { option_string: o, complete: false },
    )
}

/// Copies of the members of `options` that match the hinting token.
fn keep_matching(options: &Vec<&str>, token: Option<Token>) -> (kept: Vec<String>)
    ensures
        string_views(kept@) == matching(views(options@), hint_of(token)),
{
    let mut kept: Vec<String> = Vec::new();
    let mut i: usize = 0;
    proof {
        lemma_filter_push(Seq::<Seq<char>>::empty(), Seq::<char>::empty(), starting_with(seq![]));
        if let Some(t) = token {
            lemma_filter_push(
                Seq::<Seq<char>>::empty(),
                Seq::<char>::empty(),
                starting_with(t.text@),
            );
        }
        assert(views(options@).take(0) =~= Seq::<Seq<char>>::empty());
        assert(string_views(kept@) =~= Seq::<Seq<char>>::empty());
    }
    while i < options.len()
        invariant
            i <= options@.len(),
            string_views(kept@) == matching(views(options@).take(i as int), hint_of(token)),
        decreases options@.len() - i,
    {
        let option = options[i];
        let keep = match token {
            Some(t) => starts_with(option, t.text),
            None => true,
        };
        proof {
            let before = views(options@).take(i as int);
            assert(views(options@).take(i + 1) =~= before.push(option@));
            if let Some(t) = token {
                lemma_filter_push(before, option@, starting_with(t.text@));
            }
        }
        if keep {
            let ghost old_kept = string_views(kept@);
            let copy = option.to_owned();
            kept.push(copy);
            assert(string_views(kept@) =~= old_kept.push(option@));
        }
        i = i + 1;
    }
    proof {
        assert(views(options@).take(options@.len() as int) =~= views(options@));
    }
    kept
}

/// Adds the members of `texts` to `options`, each marked with `complete`.
fn push_options(options: &mut Vec<CompletionOption>, texts: Vec<String>, complete: bool)
    ensures
        option_views(final(options)@) == option_views(old(options)@) + string_views(
            texts@,
        ).map_values(|o: Seq<char>| CompletionOptionView { option_string: o, complete }),
{
    let ghost start = option_views(options@);
    let ghost marked = string_views(texts@).map_values(
        |o: Seq<char>| CompletionOptionView { option_string: o, complete },
    );
    let mut i: usize = 0;
    assert(option_views(options@) =~= start + marked.take(0));
    while i < texts.len()
        invariant
            i <= texts@.len(),
            marked == string_views(texts@).map_values(
                |o: Seq<char>| CompletionOptionView { option_string: o, complete },
            ),
            option_views(options@) == start + marked.take(i as int),
        decreases texts@.len() - i,
    {
        let ghost before = option_views(options@);
        let option = CompletionOption::new(texts[i].clone(), complete);
        options.push(option);
        proof {
            assert(option@ == marked[i as int]);
            assert(option_views(options@) =~= before.push(option@));
            assert(marked.take(i + 1) =~= marked.take(i as int).push(marked[i as int]));
            assert(option_views(options@) =~= start + marked.take(i + 1));
        }
        i = i + 1;
    }
    proof {
        assert(marked.take(texts@.len() as int) =~= marked);
    }
}

impl<'text> Completion<'text> {
    /// Construct a new Completion.
    ///
    /// `complete_options` are whole values with which the input can go on;
    /// `other_options` are texts that it can go on with but that are no
    /// whole value. With a hinting token only the options that start with
    /// its text are kept.
    pub fn new(
        help_symbol: String,
        help_text: String,
        token: Option<Token<'text>>,
        exhaustive: bool,
        complete_options: Vec<&str>,
        other_options: Vec<&str>,
    ) -> (completion: Completion<'text>)
        ensures
            completion.help_symbol == help_symbol,
            completion.help_text == help_text,
            completion.token == token,
            completion.exhaustive == exhaustive,
            option_views(completion.options@) == completion_options(
                hint_of(token),
                exhaustive,
                views(complete_options@),
                views(other_options@),
            ),
    {
        let ghost complete = views(complete_options@);
        let ghost other = views(other_options@);
        // The longest common prefix is that of all options, kept or not.
        let mut all_options: Vec<&str> = Vec::new();
        let mut i: usize = 0;
        assert(views(all_options@) =~= complete.take(0));
        while i < complete_options.len()
            invariant
                i <= complete_options@.len(),
                complete == views(complete_options@),
                views(all_options@) == complete.take(i as int),
            decreases complete_options@.len() - i,
        {
            let ghost before = views(all_options@);
            all_options.push(complete_options[i]);
            assert(views(all_options@) =~= before.push(complete_options@[i as int]@));
            assert(complete.take(i + 1) =~= complete.take(i as int).push(complete[i as int]));
            i = i + 1;
        }
        assert(complete.take(complete.len() as int) =~= complete);
        let mut j: usize = 0;
        assert(views(all_options@) =~= complete + other.take(0));
        while j < other_options.len()
            invariant
                j <= other_options@.len(),
                other == views(other_options@),
                views(all_options@) == complete + other.take(j as int),
            decreases other_options@.len() - j,
        {
            let ghost before = views(all_options@);
            all_options.push(other_options[j]);
            assert(views(all_options@) =~= before.push(other_options@[j as int]@));
            assert(other.take(j + 1) =~= other.take(j as int).push(other[j as int]));
            assert(views(all_options@) =~= complete + other.take(j + 1));
            j = j + 1;
        }
        assert(other.take(other.len() as int) =~= other);

        // Keep the options that the token allows.
        let kept = keep_matching(&complete_options, token);
        let mut others = keep_matching(&other_options, token);
        // If not exhaustive, then add the current token as
        // an incomplete option.
        if let Some(t) = token {
            if !exhaustive && !contains_text(&kept, t.text) && !contains_text(&others, t.text) {
                let ghost before = string_views(others@);
                others.push(t.text.to_owned());
                assert(string_views(others@) =~= before.push(t.text@));
            }
        }
        // Add the longest common prefix as an incomplete option, unless it
        // is the token or an option already.
        let prefix = longest_common_prefix(all_options.as_slice());
        let is_hint = match token {
            Some(t) => crate::util::same_text(prefix, t.text),
            None => false,
        };
        if !contains_text(&kept, prefix) && !contains_text(&others, prefix) && !is_hint {
            let ghost before = string_views(others@);
            others.push(prefix.to_owned());
            assert(string_views(others@) =~= before.push(prefix@));
        }
        assert(string_views(others@) == incomplete_options(
            hint_of(token),
            exhaustive,
            complete,
            other,
        ));
        let mut options: Vec<CompletionOption> = Vec::new();
        assert(option_views(options@) =~= Seq::<CompletionOptionView>::empty());
        push_options(&mut options, kept, true);
        push_options(&mut options, others, false);
        assert(option_views(options@) =~= completion_options(
            hint_of(token),
            exhaustive,
            complete,
            other,
        ));
        Completion { help_symbol, help_text, token, exhaustive, options }
    }
}

} // verus!
