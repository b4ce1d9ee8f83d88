//! The policy resolver: decides, per feature, whether detection is
//! enabled for a set of targets, and applies the explicit edition
//! ceiling.

use vstd::prelude::*;
use crate::features::{Feature, FeaturesFlag, EsVersion, flag_of, feature_version, feature_version_of};

verus! {

/// What the resolved target environments say about each feature:
/// `needs_transform` holds the features some target lacks native support
/// for, and `is_any_target` holds when the target set is the wildcard
/// (empty) set.
#[derive(Clone, Copy, PartialEq, Eq, Structural, Debug)]
pub struct TargetSupport {
    pub is_any_target: bool,
    pub needs_transform: FeaturesFlag,
}

/// The caller-supplied policy inputs: explicit opt-in and opt-out
/// feature sets, the force-all switch, and bugfix mode (applied when the
/// target support table is consulted).
#[derive(Clone, Copy, PartialEq, Eq, Structural, Debug)]
pub struct Config {
    pub included: FeaturesFlag,
    pub excluded: FeaturesFlag,
    pub force_all_transforms: bool,
    pub bugfixes: bool,
}

impl Config {
    /// The policy inputs a plain detection run uses: no explicit opt-in
    /// or opt-out, no forcing, bugfix thresholds on.
    pub open spec fn spec_base() -> Config {
        Config {
            included: FeaturesFlag::spec_empty(),
            excluded: FeaturesFlag::spec_empty(),
            force_all_transforms: false,
            bugfixes: true,
        }
    }

    /// Builds the plain detection policy inputs.
    pub fn base() -> (r: Config)
        ensures
            r == Config::spec_base(),
    {
        Config {
            included: FeaturesFlag::empty(),
            excluded: FeaturesFlag::empty(),
            force_all_transforms: false,
            bugfixes: true,
        }
    }
}

/// The enablement decision for one feature: excluded features are always
/// off; otherwise forcing, a wildcard target set, explicit inclusion, or
/// a target lacking native support turns the feature on.
pub open spec fn spec_is_enabled(c: Config, t: TargetSupport, f: Feature) -> bool {
    !flag_of(c.excluded, f) && (c.force_all_transforms || t.is_any_target || flag_of(c.included, f)
        || flag_of(t.needs_transform, f))
}

/// The final per-feature detection flag: the enablement decision, or an
/// explicit ceiling edition older than the feature's own edition.
#[verifier::opaque]
pub open spec fn spec_flag(c: Config, t: TargetSupport, v: EsVersion, f: Feature) -> bool {
    spec_is_enabled(c, t, f) || v.spec_lt(feature_version(f))
}

/// Executable form of [`spec_is_enabled`].
pub fn is_enabled(c: &Config, t: &TargetSupport, f: Feature) -> (r: bool)
    ensures
        r == spec_is_enabled(*c, *t, f),
{
    !flag_in(&c.excluded, f) && (c.force_all_transforms || t.is_any_target || flag_in(
        &c.included,
        f,
    ) || flag_in(&t.needs_transform, f))
}

/// Executable form of [`flag_of`].
pub fn flag_in(flags: &FeaturesFlag, f: Feature) -> (r: bool)
    ensures
        r == flag_of(*flags, f),
{
    match f {
        Feature::Regenerator => flags.regenerator,
        Feature::FunctionName => flags.function_name,
        Feature::NewTarget => flags.new_target,
        Feature::ObjectSuper => flags.object_super,
        Feature::TypeofSymbol => flags.typeof_symbol,
        Feature::ForOf => flags.for_of,
        Feature::Classes => flags.classes,
        Feature::Spread => flags.spread,
        Feature::ClassProperties => flags.class_properties,
        Feature::Destructuring => flags.destructuring,
        Feature::ComputedProperties => flags.computed_properties,
        Feature::ShorthandProperties => flags.shorthand_properties,
        Feature::StickyRegex => flags.sticky_regex,
        Feature::TemplateLiterals => flags.template_literals,
        Feature::Parameters => flags.parameters,
        Feature::ArrowFunctions => flags.arrow_functions,
        Feature::BlockScoping => flags.block_scoping,
        Feature::ExponentiationOperator => flags.exponentiation_operator,
        Feature::ClassStaticBlock => flags.class_static_block,
        Feature::PrivateMethods => flags.private_methods,
        Feature::AsyncToGenerator => flags.async_to_generator,
        Feature::LogicalAssignmentOperators => flags.logical_assignment_operators,
        Feature::NullishCoalescing => flags.nullish_coalescing,
        Feature::ObjectRestSpread => flags.object_rest_spread,
        Feature::OptionalChaining => flags.optional_chaining,
        Feature::OptionalCatchBinding => flags.optional_catch_binding,
    }
}

/// Executable form of [`spec_flag`].
fn one_flag(c: &Config, t: &TargetSupport, v: EsVersion, f: Feature) -> (r: bool)
    ensures
        r == spec_flag(*c, *t, v, f),
{
    proof {
        reveal(spec_flag);
    }
    is_enabled(c, t, f) || v.lt(feature_version_of(f))
}

/// The full per-feature detection flag set for one run.
pub open spec fn spec_resolve_flags(c: Config, t: TargetSupport, v: EsVersion) -> FeaturesFlag {
    FeaturesFlag {
        regenerator: spec_flag(c, t, v, Feature::Regenerator),
        function_name: spec_flag(c, t, v, Feature::FunctionName),
        new_target: spec_flag(c, t, v, Feature::NewTarget),
        object_super: spec_flag(c, t, v, Feature::ObjectSuper),
        typeof_symbol: spec_flag(c, t, v, Feature::TypeofSymbol),
        for_of: spec_flag(c, t, v, Feature::ForOf),
        classes: spec_flag(c, t, v, Feature::Classes),
        spread: spec_flag(c, t, v, Feature::Spread),
        class_properties: spec_flag(c, t, v, Feature::ClassProperties),
        destructuring: spec_flag(c, t, v, Feature::Destructuring),
        computed_properties: spec_flag(c, t, v, Feature::ComputedProperties),
        shorthand_properties: spec_flag(c, t, v, Feature::ShorthandProperties),
        sticky_regex: spec_flag(c, t, v, Feature::StickyRegex),
        template_literals: spec_flag(c, t, v, Feature::TemplateLiterals),
        parameters: spec_flag(c, t, v, Feature::Parameters),
        arrow_functions: spec_flag(c, t, v, Feature::ArrowFunctions),
        block_scoping: spec_flag(c, t, v, Feature::BlockScoping),
        exponentiation_operator: spec_flag(c, t, v, Feature::ExponentiationOperator),
        class_static_block: spec_flag(c, t, v, Feature::ClassStaticBlock),
        private_methods: spec_flag(c, t, v, Feature::PrivateMethods),
        async_to_generator: spec_flag(c, t, v, Feature::AsyncToGenerator),
        logical_assignment_operators: spec_flag(c, t, v, Feature::LogicalAssignmentOperators),
        nullish_coalescing: spec_flag(c, t, v, Feature::NullishCoalescing),
        object_rest_spread: spec_flag(c, t, v, Feature::ObjectRestSpread),
        optional_chaining: spec_flag(c, t, v, Feature::OptionalChaining),
        optional_catch_binding: spec_flag(c, t, v, Feature::OptionalCatchBinding),
    }
}

/// Projecting one feature out of the resolved flag set gives that
/// feature's own decision.
pub proof fn lemma_resolve_flags(c: Config, t: TargetSupport, v: EsVersion, f: Feature)
    ensures
        flag_of(spec_resolve_flags(c, t, v), f) == spec_flag(c, t, v, f),
{
}

/// Computes the full per-feature detection flag set for one run.
pub fn resolve_flags(c: &Config, t: &TargetSupport, v: EsVersion) -> (r: FeaturesFlag)
    ensures
        r == spec_resolve_flags(*c, *t, v),
{
    FeaturesFlag {
        regenerator: one_flag(c, t, v, Feature::Regenerator),
        function_name: one_flag(c, t, v, Feature::FunctionName),
        new_target: one_flag(c, t, v, Feature::NewTarget),
        object_super: one_flag(c, t, v, Feature::ObjectSuper),
        typeof_symbol: one_flag(c, t, v, Feature::TypeofSymbol),
        for_of: one_flag(c, t, v, Feature::ForOf),
        classes: one_flag(c, t, v, Feature::Classes),
        spread: one_flag(c, t, v, Feature::Spread),
        class_properties: one_flag(c, t, v, Feature::ClassProperties),
        destructuring: one_flag(c, t, v, Feature::Destructuring),
        computed_properties: one_flag(c, t, v, Feature::ComputedProperties),
        shorthand_properties: one_flag(c, t, v, Feature::ShorthandProperties),
        sticky_regex: one_flag(c, t, v, Feature::StickyRegex),
        template_literals: one_flag(c, t, v, Feature::TemplateLiterals),
        parameters: one_flag(c, t, v, Feature::Parameters),
        arrow_functions: one_flag(c, t, v, Feature::ArrowFunctions),
        block_scoping: one_flag(c, t, v, Feature::BlockScoping),
        exponentiation_operator: one_flag(c, t, v, Feature::ExponentiationOperator),
        class_static_block: one_flag(c, t, v, Feature::ClassStaticBlock),
        private_methods: one_flag(c, t, v, Feature::PrivateMethods),
        async_to_generator: one_flag(c, t, v, Feature::AsyncToGenerator),
        logical_assignment_operators: one_flag(c, t, v, Feature::LogicalAssignmentOperators),
        nullish_coalescing: one_flag(c, t, v, Feature::NullishCoalescing),
        object_rest_spread: one_flag(c, t, v, Feature::ObjectRestSpread),
        optional_chaining: one_flag(c, t, v, Feature::OptionalChaining),
        optional_catch_binding: one_flag(c, t, v, Feature::OptionalCatchBinding),
    }
}

/// A feature whose threshold edition the targets already meet natively
/// is not enabled, as long as it is neither forced, nor explicitly
/// included, nor the target set is the wildcard set.
pub proof fn lemma_native_support_disables(c: Config, t: TargetSupport, f: Feature)
    requires
        !c.force_all_transforms,
        !t.is_any_target,
        !flag_of(c.included, f),
        !flag_of(t.needs_transform, f),
    ensures
        !spec_is_enabled(c, t, f),
{
}

/// An excluded feature is never enabled, whatever the inclusion list,
/// the force-all switch or the targets' native support say.
pub proof fn lemma_exclude_suppresses(c: Config, t: TargetSupport, f: Feature)
    requires
        flag_of(c.excluded, f),
    ensures
        !spec_is_enabled(c, t, f),
        !spec_is_enabled(
            Config { included: c.included, force_all_transforms: true, ..c },
            t,
            f,
        ),
{
}

} // verus!
