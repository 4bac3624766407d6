//! Shell globs, compiled and matched by the `globset` crate.
//!
//! The contracts here are believed, not proved. They hold where `/` is the only path
//! separator, as it is on every system for which this package can be built.
use globset::{Candidate, Glob, GlobBuilder, GlobSet, GlobSetBuilder};
use vstd::prelude::*;

verus! {

/// A glob as its builder sees it: the pattern text and every option that decides
/// how the text is read and what it matches.
pub struct GlobRule {
    pub pattern: Seq<char>,
    pub case_insensitive: bool,
    pub literal_separator: bool,
    pub backslash_escape: bool,
    pub empty_alternates: bool,
    pub allow_unclosed_class: bool,
}

/// The rule of a pattern under the given two options, with the other options as
/// `GlobBuilder::new` leaves them where `\` is no path separator.
pub open spec fn rule_of(
    pattern: Seq<char>,
    case_insensitive: bool,
    literal_separator: bool,
) -> GlobRule {
    GlobRule {
        pattern,
        case_insensitive,
        literal_separator,
        backslash_escape: true,
        empty_alternates: false,
        allow_unclosed_class: false,
    }
}

/// `globset::Glob`, a compiled pattern.
#[verifier::external_type_specification]
#[verifier::external_body]
pub struct ExGlob(globset::Glob);

/// `globset::GlobSetBuilder`, the globs of a set to be built.
#[verifier::external_type_specification]
#[verifier::external_body]
pub struct ExGlobSetBuilder(globset::GlobSetBuilder);

/// `globset::GlobSet`, globs that are matched together.
#[verifier::external_type_specification]
#[verifier::external_body]
pub struct ExGlobSet(globset::GlobSet);

/// What a compiled glob holds: the rule that it was built from.
pub uninterp spec fn glob_rule(glob: Glob) -> GlobRule;

/// What a builder of a glob set holds: the rules added so far, in order.
pub uninterp spec fn builder_rules(builder: GlobSetBuilder) -> Seq<GlobRule>;

/// What a glob set holds: the rules of its globs, in the order they were added.
pub uninterp spec fn set_rules(set: GlobSet) -> Seq<GlobRule>;

/// The text of the error with which `GlobBuilder::build` rejects a rule, or `None`
/// where it accepts it.
pub uninterp spec fn glob_error(rule: GlobRule) -> Option<Seq<char>>;

/// Whether a glob built from the rule matches the path with these bytes.
pub uninterp spec fn glob_matches(rule: GlobRule, path: Seq<u8>) -> bool;

/// A set matches a path when one of its globs does.
pub open spec fn any_rule_matches(rules: Seq<GlobRule>, path: Seq<u8>) -> bool {
    exists|i: int| 0 <= i < rules.len() && glob_matches(#[trigger] rules[i], path)
}

/// `GlobBuilder::build`, after `GlobBuilder::new`, `case_insensitive` and
/// `literal_separator`, parses a pattern. The contract says that it rejects exactly the
/// rules that have an error, with the text of that error, and that a glob it returns was
/// built from this pattern and these options, the other options being the default ones.
#[verifier::external_body]
pub(crate) fn compile_glob(
    pattern: &str,
    case_insensitive: bool,
    literal_separator: bool,
) -> (res: Result<Glob, String>)
    ensures
        match res {
            Ok(glob) => {
                &&& glob_error(rule_of(pattern@, case_insensitive, literal_separator)) is None
                &&& glob_rule(glob) == rule_of(pattern@, case_insensitive, literal_separator)
            },
            Err(text) => glob_error(rule_of(pattern@, case_insensitive, literal_separator))
                == Some(text@),
        },
{
    GlobBuilder::new(pattern)
        .case_insensitive(case_insensitive)
        .literal_separator(literal_separator)
        .build()
        .map_err(|e| e.to_string())
}

/// `GlobSetBuilder::new` returns a builder that holds no glob.
#[verifier::external_body]
pub(crate) fn empty_builder() -> (builder: GlobSetBuilder)
    ensures
        builder_rules(builder) == Seq::<GlobRule>::empty(),
{
    GlobSetBuilder::new()
}

/// `GlobSetBuilder::add` adds a glob behind those that the builder holds.
#[verifier::external_body]
pub(crate) fn add_glob(builder: &mut GlobSetBuilder, glob: Glob)
    ensures
        builder_rules(*final(builder)) == builder_rules(*old(builder)).push(glob_rule(glob)),
{
    builder.add(glob);
}

/// `GlobSetBuilder::build` makes a set of the globs that the builder holds. The contract
/// says that it succeeds on an empty builder, and that a set it returns holds those globs.
/// It does not say when other builders fail, nor with which text: the compiler limits the
/// memory of the automata that it builds, and what they take depends on the machine.
#[verifier::external_body]
pub(crate) fn build_set(builder: &GlobSetBuilder) -> (res: Result<GlobSet, String>)
    ensures
        builder_rules(*builder).len() == 0 ==> res is Ok,
        res matches Ok(set) ==> set_rules(set) == builder_rules(*builder),
{
    builder.build().map_err(|e| e.to_string())
}

/// `GlobSet::is_match_candidate`, on the path that `Candidate::from_bytes` makes of the
/// bytes, tells whether any glob of a set matches a path. The contract says just that.
#[verifier::external_body]
pub(crate) fn set_matches(set: &GlobSet, path: &[u8]) -> (res: bool)
    ensures
        res == (exists|i: int|
            0 <= i < set_rules(*set).len() && glob_matches(#[trigger] set_rules(*set)[i], path@)),
{
    set.is_match_candidate(&Candidate::from_bytes(path))
}

/// Whether these rules are those of a builder whose set the compiler was asked for and refused
/// with this text.
pub closed spec fn set_was_refused(rules: Seq<GlobRule>, text: String) -> bool {
    exists|builder: GlobSetBuilder| #[trigger]
        builder_rules(builder) == rules && call_ensures(
            build_set,
            (&builder,),
            Err::<GlobSet, String>(text),
        )
}

/// Asks the compiler for the set of the globs that a builder holds.
pub(crate) fn compile_set(builder: &GlobSetBuilder) -> (res: Result<GlobSet, String>)
    ensures
        match res {
            Ok(set) => set_rules(set) == builder_rules(*builder),
            Err(text) => {
                &&& builder_rules(*builder).len() > 0
                &&& set_was_refused(builder_rules(*builder), text)
            },
        },
{
    build_set(builder)
}

/// A set counts as refused only if the compiler itself refused it, for exactly these rules and
/// with exactly this text.
pub(crate) proof fn law_refusals_come_from_compiler(rules: Seq<GlobRule>, text: String) -> (builder:
    GlobSetBuilder)
    requires
        set_was_refused(rules, text),
    ensures
        builder_rules(builder) == rules,
        call_ensures(build_set, (&builder,), Err::<GlobSet, String>(text)),
{
    choose|builder: GlobSetBuilder| #[trigger]
        builder_rules(builder) == rules && call_ensures(
            build_set,
            (&builder,),
            Err::<GlobSet, String>(text),
        )
}

/// A rule holds the pattern and the two options that it was given. A backslash escapes, empty
/// alternates do not count and a class has to be closed, whatever the pattern is.
pub proof fn law_rule_options(
    pattern: Seq<char>,
    case_insensitive: bool,
    literal_separator: bool,
)
    ensures
        rule_of(pattern, case_insensitive, literal_separator).pattern == pattern,
        rule_of(pattern, case_insensitive, literal_separator).case_insensitive == case_insensitive,
        rule_of(pattern, case_insensitive, literal_separator).literal_separator
            == literal_separator,
        rule_of(pattern, case_insensitive, literal_separator).backslash_escape,
        !rule_of(pattern, case_insensitive, literal_separator).empty_alternates,
        !rule_of(pattern, case_insensitive, literal_separator).allow_unclosed_class,
{
}

/// No rules match nothing, and one rule more matches what it or one of the others matches.
pub proof fn law_rules_match_one_by_one(rules: Seq<GlobRule>, rule: GlobRule, path: Seq<u8>)
    ensures
        !any_rule_matches(Seq::empty(), path),
        any_rule_matches(rules.push(rule), path) <==> any_rule_matches(rules, path)
            || glob_matches(rule, path),
{
    let more = rules.push(rule);
    if any_rule_matches(rules, path) {
        let i = choose|i: int| 0 <= i < rules.len() && glob_matches(#[trigger] rules[i], path);
        assert(glob_matches(more[i], path));
    }
    if glob_matches(rule, path) {
        assert(glob_matches(more[rules.len() as int], path));
    }
    if any_rule_matches(more, path) {
        let i = choose|i: int| 0 <= i < more.len() && glob_matches(#[trigger] more[i], path);
        if i < rules.len() {
            assert(glob_matches(rules[i], path));
        }
    }
}

} // verus!
