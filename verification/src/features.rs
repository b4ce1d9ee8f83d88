//! The fixed catalog of detectable syntax features, the ordered set of
//! language editions, and the single authoritative table mapping each
//! feature to the edition that introduced it.

use vstd::prelude::*;
use vstd::string::StringExecFns;

verus! {

/// One ECMAScript syntax capability that the detector can recognise.
#[derive(Clone, Copy, PartialEq, Eq, Structural, Debug)]
pub enum Feature {
    Regenerator,
    FunctionName,
    NewTarget,
    ObjectSuper,
    TypeofSymbol,
    ForOf,
    Classes,
    Spread,
    ClassProperties,
    Destructuring,
    ComputedProperties,
    ShorthandProperties,
    StickyRegex,
    TemplateLiterals,
    Parameters,
    ArrowFunctions,
    BlockScoping,
    ExponentiationOperator,
    ClassStaticBlock,
    PrivateMethods,
    AsyncToGenerator,
    LogicalAssignmentOperators,
    NullishCoalescing,
    ObjectRestSpread,
    OptionalChaining,
    OptionalCatchBinding,
}

/// An ECMAScript specification edition, totally ordered, with `EsNext`
/// as the "latest" sentinel above every concrete year.
#[derive(Clone, Copy, PartialEq, Eq, Structural, Debug)]
pub enum EsVersion {
    Es3,
    Es5,
    Es2015,
    Es2016,
    Es2017,
    Es2018,
    Es2019,
    Es2020,
    Es2021,
    Es2022,
    EsNext,
}

/// Position of an edition in the total order of editions.
pub open spec fn rank(v: EsVersion) -> int {
    match v {
        EsVersion::Es3 => 0,
        EsVersion::Es5 => 1,
        EsVersion::Es2015 => 2,
        EsVersion::Es2016 => 3,
        EsVersion::Es2017 => 4,
        EsVersion::Es2018 => 5,
        EsVersion::Es2019 => 6,
        EsVersion::Es2020 => 7,
        EsVersion::Es2021 => 8,
        EsVersion::Es2022 => 9,
        EsVersion::EsNext => 10,
    }
}

impl EsVersion {
    /// `self` is a strictly older edition than `other`.
    pub open spec fn spec_lt(self, other: EsVersion) -> bool {
        rank(self) < rank(other)
    }

    /// Compares two editions by their position in the edition order.
    pub fn lt(self, other: EsVersion) -> (r: bool)
        ensures
            r == self.spec_lt(other),
    {
        rank_val(self) < rank_val(other)
    }
}

/// Executable form of [`rank`].
pub fn rank_val(v: EsVersion) -> (r: u8)
    ensures
        r as int == rank(v),
{
    match v {
        EsVersion::Es3 => 0,
        EsVersion::Es5 => 1,
        EsVersion::Es2015 => 2,
        EsVersion::Es2016 => 3,
        EsVersion::Es2017 => 4,
        EsVersion::Es2018 => 5,
        EsVersion::Es2019 => 6,
        EsVersion::Es2020 => 7,
        EsVersion::Es2021 => 8,
        EsVersion::Es2022 => 9,
        EsVersion::EsNext => 10,
    }
}

/// One boolean per detectable feature.  Used both as the set of enabled
/// features (a policy) and as the set of features found by a traversal.
#[derive(Clone, Copy, PartialEq, Eq, Structural, Debug)]
pub struct FeaturesFlag {
    pub regenerator: bool,
    pub function_name: bool,
    pub new_target: bool,
    pub object_super: bool,
    pub typeof_symbol: bool,
    pub for_of: bool,
    pub classes: bool,
    pub spread: bool,
    pub class_properties: bool,
    pub destructuring: bool,
    pub computed_properties: bool,
    pub shorthand_properties: bool,
    pub sticky_regex: bool,
    pub template_literals: bool,
    pub parameters: bool,
    pub arrow_functions: bool,
    pub block_scoping: bool,
    pub exponentiation_operator: bool,
    pub class_static_block: bool,
    pub private_methods: bool,
    pub async_to_generator: bool,
    pub logical_assignment_operators: bool,
    pub nullish_coalescing: bool,
    pub object_rest_spread: bool,
    pub optional_chaining: bool,
    pub optional_catch_binding: bool,
}

/// Projects the flag of feature `f` out of a [`FeaturesFlag`].
pub open spec fn flag_of(flags: FeaturesFlag, f: Feature) -> bool {
    match f {
        Feature::Regenerator => flags.regenerator,
        Feature::FunctionName => flags.function_name,
        Feature::NewTarget => flags.new_target,
        Feature::ObjectSuper => flags.object_super,
        Feature::TypeofSymbol => flags.typeof_symbol,
        Feature::ForOf => flags.for_of,
        Feature::Classes => flags.classes,
        Feature::Spread => flags.spread,
        Feature::ClassProperties => flags.class_properties,
        Feature::Destructuring => flags.destructuring,
        Feature::ComputedProperties => flags.computed_properties,
        Feature::ShorthandProperties => flags.shorthand_properties,
        Feature::StickyRegex => flags.sticky_regex,
        Feature::TemplateLiterals => flags.template_literals,
        Feature::Parameters => flags.parameters,
        Feature::ArrowFunctions => flags.arrow_functions,
        Feature::BlockScoping => flags.block_scoping,
        Feature::ExponentiationOperator => flags.exponentiation_operator,
        Feature::ClassStaticBlock => flags.class_static_block,
        Feature::PrivateMethods => flags.private_methods,
        Feature::AsyncToGenerator => flags.async_to_generator,
        Feature::LogicalAssignmentOperators => flags.logical_assignment_operators,
        Feature::NullishCoalescing => flags.nullish_coalescing,
        Feature::ObjectRestSpread => flags.object_rest_spread,
        Feature::OptionalChaining => flags.optional_chaining,
        Feature::OptionalCatchBinding => flags.optional_catch_binding,
    }
}

impl FeaturesFlag {
    /// The empty feature set.
    pub open spec fn spec_empty() -> FeaturesFlag {
        FeaturesFlag {
            regenerator: false,
            function_name: false,
            new_target: false,
            object_super: false,
            typeof_symbol: false,
            for_of: false,
            classes: false,
            spread: false,
            class_properties: false,
            destructuring: false,
            computed_properties: false,
            shorthand_properties: false,
            sticky_regex: false,
            template_literals: false,
            parameters: false,
            arrow_functions: false,
            block_scoping: false,
            exponentiation_operator: false,
            class_static_block: false,
            private_methods: false,
            async_to_generator: false,
            logical_assignment_operators: false,
            nullish_coalescing: false,
            object_rest_spread: false,
            optional_chaining: false,
            optional_catch_binding: false,
        }
    }

    /// Builds the empty feature set.
    pub fn empty() -> (r: FeaturesFlag)
        ensures
            r == FeaturesFlag::spec_empty(),
    {
        FeaturesFlag {
            regenerator: false,
            function_name: false,
            new_target: false,
            object_super: false,
            typeof_symbol: false,
            for_of: false,
            classes: false,
            spread: false,
            class_properties: false,
            destructuring: false,
            computed_properties: false,
            shorthand_properties: false,
            sticky_regex: false,
            template_literals: false,
            parameters: false,
            arrow_functions: false,
            block_scoping: false,
            exponentiation_operator: false,
            class_static_block: false,
            private_methods: false,
            async_to_generator: false,
            logical_assignment_operators: false,
            nullish_coalescing: false,
            object_rest_spread: false,
            optional_chaining: false,
            optional_catch_binding: false,
        }
    }
}

/// The one authoritative table mapping each feature to the edition that
/// first supports it natively.
pub open spec fn feature_version(f: Feature) -> EsVersion {
    match f {
        Feature::Regenerator => EsVersion::Es2015,
        Feature::FunctionName => EsVersion::Es2015,
        Feature::NewTarget => EsVersion::Es2015,
        Feature::ObjectSuper => EsVersion::Es2015,
        Feature::TypeofSymbol => EsVersion::Es2015,
        Feature::ForOf => EsVersion::Es2015,
        Feature::Classes => EsVersion::Es2015,
        Feature::Spread => EsVersion::Es2015,
        Feature::ClassProperties => EsVersion::Es2022,
        Feature::Destructuring => EsVersion::Es2015,
        Feature::ComputedProperties => EsVersion::Es2015,
        Feature::ShorthandProperties => EsVersion::Es2015,
        Feature::StickyRegex => EsVersion::Es2015,
        Feature::TemplateLiterals => EsVersion::Es2015,
        Feature::Parameters => EsVersion::Es2015,
        Feature::ArrowFunctions => EsVersion::Es2015,
        Feature::BlockScoping => EsVersion::Es2015,
        Feature::ExponentiationOperator => EsVersion::Es2016,
        Feature::ClassStaticBlock => EsVersion::Es2022,
        Feature::PrivateMethods => EsVersion::Es2022,
        Feature::AsyncToGenerator => EsVersion::Es2017,
        Feature::LogicalAssignmentOperators => EsVersion::Es2021,
        Feature::NullishCoalescing => EsVersion::Es2020,
        Feature::ObjectRestSpread => EsVersion::Es2018,
        Feature::OptionalChaining => EsVersion::Es2020,
        Feature::OptionalCatchBinding => EsVersion::Es2019,
    }
}

/// Executable form of [`feature_version`].
pub fn feature_version_of(f: Feature) -> (r: EsVersion)
    ensures
        r == feature_version(f),
{
    match f {
        Feature::Regenerator => EsVersion::Es2015,
        Feature::FunctionName => EsVersion::Es2015,
        Feature::NewTarget => EsVersion::Es2015,
        Feature::ObjectSuper => EsVersion::Es2015,
        Feature::TypeofSymbol => EsVersion::Es2015,
        Feature::ForOf => EsVersion::Es2015,
        Feature::Classes => EsVersion::Es2015,
        Feature::Spread => EsVersion::Es2015,
        Feature::ClassProperties => EsVersion::Es2022,
        Feature::Destructuring => EsVersion::Es2015,
        Feature::ComputedProperties => EsVersion::Es2015,
        Feature::ShorthandProperties => EsVersion::Es2015,
        Feature::StickyRegex => EsVersion::Es2015,
        Feature::TemplateLiterals => EsVersion::Es2015,
        Feature::Parameters => EsVersion::Es2015,
        Feature::ArrowFunctions => EsVersion::Es2015,
        Feature::BlockScoping => EsVersion::Es2015,
        Feature::ExponentiationOperator => EsVersion::Es2016,
        Feature::ClassStaticBlock => EsVersion::Es2022,
        Feature::PrivateMethods => EsVersion::Es2022,
        Feature::AsyncToGenerator => EsVersion::Es2017,
        Feature::LogicalAssignmentOperators => EsVersion::Es2021,
        Feature::NullishCoalescing => EsVersion::Es2020,
        Feature::ObjectRestSpread => EsVersion::Es2018,
        Feature::OptionalChaining => EsVersion::Es2020,
        Feature::OptionalCatchBinding => EsVersion::Es2019,
    }
}

/// The textual tag that occurrence records carry for feature `f`.
pub open spec fn feature_name(f: Feature) -> Seq<char> {
    match f {
        Feature::Regenerator => "regenerator"@,
        Feature::FunctionName => "function_name"@,
        Feature::NewTarget => "new_target"@,
        Feature::ObjectSuper => "object_super"@,
        Feature::TypeofSymbol => "typeof_symbol"@,
        Feature::ForOf => "for_of"@,
        Feature::Classes => "classes"@,
        Feature::Spread => "spread"@,
        Feature::ClassProperties => "class_properties"@,
        Feature::Destructuring => "destructuring"@,
        Feature::ComputedProperties => "computed_properties"@,
        Feature::ShorthandProperties => "shorthand_properties"@,
        Feature::StickyRegex => "sticky_regex"@,
        Feature::TemplateLiterals => "template_literals"@,
        Feature::Parameters => "parameters"@,
        Feature::ArrowFunctions => "arrow_functions"@,
        Feature::BlockScoping => "block_scoping"@,
        Feature::ExponentiationOperator => "exponentiation_operator"@,
        Feature::ClassStaticBlock => "class_static_block"@,
        Feature::PrivateMethods => "private_methods"@,
        Feature::AsyncToGenerator => "async_to_generator"@,
        Feature::LogicalAssignmentOperators => "logical_assignment_operators"@,
        Feature::NullishCoalescing => "nullish_coalescing"@,
        Feature::ObjectRestSpread => "object_rest_spread"@,
        Feature::OptionalChaining => "optional_chaining"@,
        Feature::OptionalCatchBinding => "optional_catch_binding"@,
    }
}

/// Builds the textual tag of feature `f`.
pub fn feature_name_of(f: Feature) -> (r: String)
    ensures
        r@ == feature_name(f),
{
    match f {
        Feature::Regenerator => String::from_str("regenerator"),
        Feature::FunctionName => String::from_str("function_name"),
        Feature::NewTarget => String::from_str("new_target"),
        Feature::ObjectSuper => String::from_str("object_super"),
        Feature::TypeofSymbol => String::from_str("typeof_symbol"),
        Feature::ForOf => String::from_str("for_of"),
        Feature::Classes => String::from_str("classes"),
        Feature::Spread => String::from_str("spread"),
        Feature::ClassProperties => String::from_str("class_properties"),
        Feature::Destructuring => String::from_str("destructuring"),
        Feature::ComputedProperties => String::from_str("computed_properties"),
        Feature::ShorthandProperties => String::from_str("shorthand_properties"),
        Feature::StickyRegex => String::from_str("sticky_regex"),
        Feature::TemplateLiterals => String::from_str("template_literals"),
        Feature::Parameters => String::from_str("parameters"),
        Feature::ArrowFunctions => String::from_str("arrow_functions"),
        Feature::BlockScoping => String::from_str("block_scoping"),
        Feature::ExponentiationOperator => String::from_str("exponentiation_operator"),
        Feature::ClassStaticBlock => String::from_str("class_static_block"),
        Feature::PrivateMethods => String::from_str("private_methods"),
        Feature::AsyncToGenerator => String::from_str("async_to_generator"),
        Feature::LogicalAssignmentOperators => String::from_str("logical_assignment_operators"),
        Feature::NullishCoalescing => String::from_str("nullish_coalescing"),
        Feature::ObjectRestSpread => String::from_str("object_rest_spread"),
        Feature::OptionalChaining => String::from_str("optional_chaining"),
        Feature::OptionalCatchBinding => String::from_str("optional_catch_binding"),
    }
}

/// The editions implied by a set of found features: an edition is in the
/// set exactly when some found feature belongs to it.
#[derive(Clone, Copy, PartialEq, Eq, Structural, Debug)]
pub struct EsVersionSet {
    pub es2015: bool,
    pub es2016: bool,
    pub es2017: bool,
    pub es2018: bool,
    pub es2019: bool,
    pub es2020: bool,
    pub es2021: bool,
    pub es2022: bool,
}

impl EsVersionSet {
    /// The empty edition set.
    pub open spec fn spec_empty() -> EsVersionSet {
        EsVersionSet {
            es2015: false,
            es2016: false,
            es2017: false,
            es2018: false,
            es2019: false,
            es2020: false,
            es2021: false,
            es2022: false,
        }
    }

    /// Builds the empty edition set.
    pub fn empty() -> (r: EsVersionSet)
        ensures
            r == EsVersionSet::spec_empty(),
    {
        EsVersionSet {
            es2015: false,
            es2016: false,
            es2017: false,
            es2018: false,
            es2019: false,
            es2020: false,
            es2021: false,
            es2022: false,
        }
    }

    /// Membership of edition `v` in the set; editions never implied by a
    /// detection are never members.
    pub open spec fn spec_has(self, v: EsVersion) -> bool {
        match v {
            EsVersion::Es2015 => self.es2015,
            EsVersion::Es2016 => self.es2016,
            EsVersion::Es2017 => self.es2017,
            EsVersion::Es2018 => self.es2018,
            EsVersion::Es2019 => self.es2019,
            EsVersion::Es2020 => self.es2020,
            EsVersion::Es2021 => self.es2021,
            EsVersion::Es2022 => self.es2022,
            _ => false,
        }
    }
}

/// The edition set implied by a set of found features.
pub open spec fn versions_of(found: FeaturesFlag) -> EsVersionSet {
    EsVersionSet {
        es2015: found.regenerator || found.function_name || found.new_target || found.object_super
            || found.typeof_symbol || found.for_of || found.classes || found.spread
            || found.destructuring || found.computed_properties || found.shorthand_properties
            || found.sticky_regex || found.template_literals || found.parameters
            || found.arrow_functions || found.block_scoping,
        es2016: found.exponentiation_operator,
        es2017: found.async_to_generator,
        es2018: found.object_rest_spread,
        es2019: found.optional_catch_binding,
        es2020: found.nullish_coalescing || found.optional_chaining,
        es2021: found.logical_assignment_operators,
        es2022: found.class_static_block || found.private_methods || found.class_properties,
    }
}

/// Every found feature places its own edition in the implied set.
pub proof fn lemma_versions_of_found(found: FeaturesFlag, f: Feature)
    requires
        flag_of(found, f),
    ensures
        versions_of(found).spec_has(feature_version(f)),
{
}



/// Two feature sets derived from the same enabled flags and the same
/// occurrence set are equal: what a run finds is a function of its
/// policy and its tree.
#[verifier::rlimit(100)]
#[verifier::spinoff_prover]
pub proof fn lemma_found_features_deterministic(
    flags: FeaturesFlag,
    occurring: FeaturesFlag,
    a: FeaturesFlag,
    b: FeaturesFlag,
)
    requires
        forall|f: Feature| #![trigger flag_of(a, f)]
            flag_of(a, f) == (flag_of(flags, f) && flag_of(occurring, f)),
        forall|f: Feature| #![trigger flag_of(b, f)]
            flag_of(b, f) == (flag_of(flags, f) && flag_of(occurring, f)),
    ensures
        a == b,
{
    assert(flag_of(a, Feature::Regenerator) == flag_of(b, Feature::Regenerator));
    assert(flag_of(a, Feature::FunctionName) == flag_of(b, Feature::FunctionName));
    assert(flag_of(a, Feature::NewTarget) == flag_of(b, Feature::NewTarget));
    assert(flag_of(a, Feature::ObjectSuper) == flag_of(b, Feature::ObjectSuper));
    assert(flag_of(a, Feature::TypeofSymbol) == flag_of(b, Feature::TypeofSymbol));
    assert(flag_of(a, Feature::ForOf) == flag_of(b, Feature::ForOf));
    assert(flag_of(a, Feature::Classes) == flag_of(b, Feature::Classes));
    assert(flag_of(a, Feature::Spread) == flag_of(b, Feature::Spread));
    assert(flag_of(a, Feature::ClassProperties) == flag_of(b, Feature::ClassProperties));
    assert(flag_of(a, Feature::Destructuring) == flag_of(b, Feature::Destructuring));
    assert(flag_of(a, Feature::ComputedProperties) == flag_of(b, Feature::ComputedProperties));
    assert(flag_of(a, Feature::ShorthandProperties) == flag_of(b, Feature::ShorthandProperties));
    assert(flag_of(a, Feature::StickyRegex) == flag_of(b, Feature::StickyRegex));
    assert(flag_of(a, Feature::TemplateLiterals) == flag_of(b, Feature::TemplateLiterals));
    assert(flag_of(a, Feature::Parameters) == flag_of(b, Feature::Parameters));
    assert(flag_of(a, Feature::ArrowFunctions) == flag_of(b, Feature::ArrowFunctions));
    assert(flag_of(a, Feature::BlockScoping) == flag_of(b, Feature::BlockScoping));
    assert(flag_of(a, Feature::ExponentiationOperator) == flag_of(b, Feature::ExponentiationOperator));
    assert(flag_of(a, Feature::ClassStaticBlock) == flag_of(b, Feature::ClassStaticBlock));
    assert(flag_of(a, Feature::PrivateMethods) == flag_of(b, Feature::PrivateMethods));
    assert(flag_of(a, Feature::AsyncToGenerator) == flag_of(b, Feature::AsyncToGenerator));
    assert(flag_of(a, Feature::LogicalAssignmentOperators) == flag_of(b, Feature::LogicalAssignmentOperators));
    assert(flag_of(a, Feature::NullishCoalescing) == flag_of(b, Feature::NullishCoalescing));
    assert(flag_of(a, Feature::ObjectRestSpread) == flag_of(b, Feature::ObjectRestSpread));
    assert(flag_of(a, Feature::OptionalChaining) == flag_of(b, Feature::OptionalChaining));
    assert(flag_of(a, Feature::OptionalCatchBinding) == flag_of(b, Feature::OptionalCatchBinding));
}


/// Equal found-feature sets imply equal implied-edition sets.
pub proof fn lemma_versions_agree(
    a: FeaturesFlag,
    b: FeaturesFlag,
    va: EsVersionSet,
    vb: EsVersionSet,
)
    requires
        a == b,
        va == versions_of(a),
        vb == versions_of(b),
    ensures
        va == vb,
{
}

} // verus!
