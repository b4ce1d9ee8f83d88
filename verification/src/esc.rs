//! The feature visitor: one depth-first pass over the syntax tree that
//! records, for every enabled feature, whether it occurs, the editions
//! the found features imply, and one occurrence record per construct
//! whose exact source extent matters.

use vstd::prelude::*;
use crate::ast::{
    AssignOpKind, BinOpKind, Node, NodeKind, Program, wf_node, wf_nodes, wf_program,
    lemma_wf_nodes_index,
};
use crate::features::{
    EsVersion, EsVersionSet, Feature, FeaturesFlag, feature_name, feature_name_of,
    feature_version, feature_version_of, flag_of, versions_of,
};
use crate::policy::{Config, TargetSupport, flag_in, resolve_flags, spec_resolve_flags};
use crate::span::{
    char_count, col_of, line_of, lemma_char_count_bound, lemma_col_nonneg,
    lemma_line_start_bound, lemma_char_count_le, lemma_newline_count_bound, resolve_pos,
};

verus! {

/// A 1-based line and 0-based character column.
#[derive(Clone, Copy, PartialEq, Eq, Structural, Debug)]
pub struct Line {
    pub l: i32,
    pub c: i32,
}

/// One occurrence record: the feature's textual tag, the character
/// offsets of the construct into the original text, and its start and
/// end line/column.
#[derive(Clone, Debug)]
pub struct Detail {
    pub feature: String,
    pub s: i32,
    pub e: i32,
    pub ls: Line,
    pub le: Line,
}

/// The mathematical value of a [`Detail`].
#[verifier::ext_equal]
pub struct DetailV {
    pub feature: Seq<char>,
    pub s: int,
    pub e: int,
    pub ls_l: int,
    pub ls_c: int,
    pub le_l: int,
    pub le_c: int,
}

impl View for Detail {
    type V = DetailV;

    open spec fn view(&self) -> DetailV {
        DetailV {
            feature: self.feature@,
            s: self.s as int,
            e: self.e as int,
            ls_l: self.ls.l as int,
            ls_c: self.ls.c as int,
            le_l: self.le.l as int,
            le_c: self.le.c as int,
        }
    }
}

impl DeepView for Detail {
    type V = DetailV;

    open spec fn deep_view(&self) -> DetailV {
        self.view()
    }
}

/// The occurrence record that a construct spanning bytes `[lo, hi)` of
/// `code` produces for feature `f`.
pub open spec fn mk_detail(code: Seq<u8>, f: Feature, lo: int, hi: int) -> DetailV {
    DetailV {
        feature: feature_name(f),
        s: char_count(code, lo),
        e: char_count(code, hi),
        ls_l: line_of(code, lo),
        ls_c: col_of(code, lo),
        le_l: line_of(code, hi),
        le_c: col_of(code, hi),
    }
}

/// A pattern kind other than a plain identifier.
pub open spec fn nonident_pat_kind(k: NodeKind) -> bool {
    ||| k is ObjectPat
    ||| k is ArrayPat
    ||| k is RestPat
    ||| k is AssignPat
    ||| k is OtherPat
}

/// The subtree holds a non-identifier binding pattern.
pub open spec fn has_nonident(n: Node) -> bool
    decreases n,
{
    nonident_pat_kind(n.kind) || has_nonident_seq(n.children@)
}

/// Some subtree in the sequence holds a non-identifier binding pattern.
pub open spec fn has_nonident_seq(s: Seq<Node>) -> bool
    decreases s,
{
    s.len() > 0 && (has_nonident(s[0]) || has_nonident_seq(s.drop_first()))
}

/// The subtree holds a rest property of an object binding pattern.
pub open spec fn has_restprop(n: Node) -> bool
    decreases n,
{
    n.kind is RestProp || has_restprop_seq(n.children@)
}

/// Some subtree in the sequence holds an object-pattern rest property.
pub open spec fn has_restprop_seq(s: Seq<Node>) -> bool
    decreases s,
{
    s.len() > 0 && (has_restprop(s[0]) || has_restprop_seq(s.drop_first()))
}

/// The subtree holds a member access on `super`.
pub open spec fn has_superprop(n: Node) -> bool
    decreases n,
{
    n.kind is SuperProp || has_superprop_seq(n.children@)
}

/// Some subtree in the sequence holds a member access on `super`.
pub open spec fn has_superprop_seq(s: Seq<Node>) -> bool
    decreases s,
{
    s.len() > 0 && (has_superprop(s[0]) || has_superprop_seq(s.drop_first()))
}

/// Some parameter of the function holds a non-identifier pattern.
pub open spec fn params_nonident(s: Seq<Node>) -> bool {
    exists|i: int| 0 <= i < s.len() && (#[trigger] s[i]).kind is Param && has_nonident(s[i])
}

/// Some parameter of the function holds an object-pattern rest property.
pub open spec fn params_restprop(s: Seq<Node>) -> bool {
    exists|i: int| 0 <= i < s.len() && (#[trigger] s[i]).kind is Param && has_restprop(s[i])
}

/// The parameter's own binding pattern is a default or a rest pattern.
pub open spec fn param_top_assign_rest(n: Node) -> bool {
    n.kind is Param && n.children@.len() > 0 && (n.children@[0].kind is AssignPat
        || n.children@[0].kind is RestPat)
}

/// Some parameter of the function binds a default or a rest pattern at
/// its top level.
pub open spec fn has_top_assign_rest(s: Seq<Node>) -> bool {
    exists|i: int| 0 <= i < s.len() && param_top_assign_rest(#[trigger] s[i])
}

/// An equality or inequality operator.
pub open spec fn is_eq_op(op: BinOpKind) -> bool {
    ||| op is EqEq
    ||| op is NotEq
    ||| op is EqEqEq
    ||| op is NotEqEq
}

/// One operand is a `typeof` expression and the other the string
/// literal `"symbol"`, in either order.
pub open spec fn typeof_symbol_shape(s: Seq<Node>) -> bool {
    s.len() >= 2 && ((s[0].kind is TypeofExpr && s[1].kind is SymbolLit) || (s[1].kind
        is TypeofExpr && s[0].kind is SymbolLit))
}

/// A logical compound assignment operator.
pub open spec fn is_logical_assign(op: AssignOpKind) -> bool {
    ||| op is AndAssign
    ||| op is OrAssign
    ||| op is NullishAssign
}

/// Node `n` itself exhibits feature `f` (not counting its descendants).
#[verifier::opaque]
pub open spec fn triggers(f: Feature, n: Node) -> bool {
    match n.kind {
        NodeKind::MetaProp => f is NewTarget,
        NodeKind::ForOf => f is ForOf,
        NodeKind::ClassDecl => f is Classes,
        NodeKind::ComputedPropName => f is ComputedProperties,
        NodeKind::ClassProp => f is ClassProperties,
        NodeKind::ShorthandProp => f is ShorthandProperties,
        NodeKind::MethodProp => f is ShorthandProperties,
        NodeKind::Regex { sticky } => f is StickyRegex && sticky,
        NodeKind::Tpl => f is TemplateLiterals,
        NodeKind::VarDecl { block_scoped } => {
            ||| (f is BlockScoping && block_scoped)
            ||| (f is Destructuring && has_nonident_seq(n.children@) && !has_restprop_seq(
                n.children@,
            ))
            ||| (f is ObjectRestSpread && has_restprop_seq(n.children@))
            ||| (f is ObjectSuper && has_superprop_seq(n.children@))
        },
        NodeKind::StaticBlock => f is ClassStaticBlock,
        NodeKind::PrivateMethod => f is PrivateMethods,
        NodeKind::PrivateProp => f is PrivateMethods,
        NodeKind::Function { is_async, is_generator } => {
            ||| (f is Destructuring && params_nonident(n.children@) && !params_restprop(
                n.children@,
            ))
            ||| (f is ObjectRestSpread && params_restprop(n.children@))
            ||| (f is Parameters && has_top_assign_rest(n.children@))
            ||| (f is AsyncToGenerator && is_async)
            ||| (f is Regenerator && is_generator)
        },
        NodeKind::Arrow { is_async } => (f is AsyncToGenerator && is_async)
            || f is ArrowFunctions,
        NodeKind::Assign { op } => (f is LogicalAssignmentOperators && is_logical_assign(op)) || (
        f is ExponentiationOperator && op is ExpAssign),
        NodeKind::Bin { op } => {
            ||| (f is NullishCoalescing && op is NullishCoalescing)
            ||| (f is ExponentiationOperator && op is Exp)
            ||| (f is TypeofSymbol && is_eq_op(op) && typeof_symbol_shape(n.children@))
        },
        NodeKind::OptChain => f is OptionalChaining,
        NodeKind::SpreadArg => f is Spread,
        NodeKind::SpreadProp => f is ObjectRestSpread,
        NodeKind::CatchClause { has_param } => f is OptionalCatchBinding && !has_param,
        _ => false,
    }
}

/// Feature `f` occurs somewhere in the subtree rooted at `n`.
pub open spec fn found_in(f: Feature, n: Node) -> bool
    decreases n,
{
    triggers(f, n) || found_in_seq(f, n.children@)
}

/// Feature `f` occurs somewhere under the nodes of `s`.
pub open spec fn found_in_seq(f: Feature, s: Seq<Node>) -> bool
    decreases s,
{
    s.len() > 0 && (found_in(f, s[0]) || found_in_seq(f, s.drop_first()))
}

/// `found_in_seq` is existence of a subtree occurrence.
pub proof fn lemma_found_in_seq_exists(f: Feature, s: Seq<Node>)
    ensures
        found_in_seq(f, s) <==> exists|i: int| 0 <= i < s.len() && found_in(f, #[trigger] s[i]),
    decreases s,
{
    if s.len() > 0 {
        lemma_found_in_seq_exists(f, s.drop_first());
        if found_in_seq(f, s) {
            if found_in(f, s[0]) {
                assert(found_in(f, s[0]));
            } else {
                let i = choose|i: int|
                    0 <= i < s.drop_first().len() && found_in(f, #[trigger] s.drop_first()[i]);
                assert(s.drop_first()[i] == s[i + 1]);
                assert(found_in(f, s[i + 1]));
            }
        }
        if exists|i: int| 0 <= i < s.len() && found_in(f, #[trigger] s[i]) {
            let i = choose|i: int| 0 <= i < s.len() && found_in(f, #[trigger] s[i]);
            if i > 0 {
                assert(s.drop_first()[i - 1] == s[i]);
            }
        }
    }
}

/// The occurrence record produced when `b` holds, and nothing when it
/// does not.
pub open spec fn emit(b: bool, code: Seq<u8>, f: Feature, lo: int, hi: int) -> Seq<DetailV> {
    if b {
        seq![mk_detail(code, f, lo, hi)]
    } else {
        Seq::empty()
    }
}

/// The occurrence records a function node produces, in order: the
/// parameter-pattern classification, the default-or-rest parameter mark,
/// then the async and generator marks.
pub open spec fn function_details(
    n: Node,
    is_async: bool,
    is_generator: bool,
    flags: FeaturesFlag,
    code: Seq<u8>,
) -> Seq<DetailV> {
    let lo = n.span.lo as int;
    let hi = n.span.hi as int;
    emit(
        params_nonident(n.children@) && !params_restprop(n.children@) && flags.destructuring,
        code,
        Feature::Destructuring,
        lo,
        hi,
    ) + emit(
        params_restprop(n.children@) && flags.object_rest_spread,
        code,
        Feature::ObjectRestSpread,
        lo,
        hi,
    ) + emit(
        has_top_assign_rest(n.children@) && flags.parameters,
        code,
        Feature::Parameters,
        lo,
        hi,
    ) + emit(is_async && flags.async_to_generator, code, Feature::AsyncToGenerator, lo, hi) + emit(
        is_generator && flags.regenerator,
        code,
        Feature::Regenerator,
        lo,
        hi,
    )
}

/// The occurrence records a variable declaration produces for its
/// declarator list, spanning from the first to the last declarator.
pub open spec fn var_decl_details(n: Node, flags: FeaturesFlag, code: Seq<u8>) -> Seq<DetailV> {
    if n.children@.len() == 0 {
        Seq::empty()
    } else {
        let lo = n.children@[0].span.lo as int;
        let hi = n.children@[n.children@.len() - 1].span.hi as int;
        emit(
            has_nonident_seq(n.children@) && !has_restprop_seq(n.children@) && flags.destructuring,
            code,
            Feature::Destructuring,
            lo,
            hi,
        ) + emit(
            has_restprop_seq(n.children@) && flags.object_rest_spread,
            code,
            Feature::ObjectRestSpread,
            lo,
            hi,
        ) + emit(
            has_superprop_seq(n.children@) && flags.object_super,
            code,
            Feature::ObjectSuper,
            lo,
            hi,
        )
    }
}

/// The occurrence records a binary expression produces.
pub open spec fn bin_details(
    n: Node,
    op: BinOpKind,
    flags: FeaturesFlag,
    code: Seq<u8>,
) -> Seq<DetailV> {
    let lo = n.span.lo as int;
    let hi = n.span.hi as int;
    match op {
        BinOpKind::NullishCoalescing => emit(
            flags.nullish_coalescing,
            code,
            Feature::NullishCoalescing,
            lo,
            hi,
        ),
        BinOpKind::Exp => emit(
            flags.exponentiation_operator,
            code,
            Feature::ExponentiationOperator,
            lo,
            hi,
        ),
        BinOpKind::Other => Seq::empty(),
        _ => emit(
            flags.typeof_symbol && n.children@.len() >= 2 && n.children@[0].kind is TypeofExpr
                && n.children@[1].kind is SymbolLit,
            code,
            Feature::TypeofSymbol,
            lo,
            hi,
        ) + emit(
            flags.typeof_symbol && n.children@.len() >= 2 && n.children@[1].kind is TypeofExpr
                && n.children@[0].kind is SymbolLit,
            code,
            Feature::TypeofSymbol,
            lo,
            hi,
        ),
    }
}

/// The occurrence records node `n` itself produces (not counting its
/// descendants), given the enabled-feature flags.
#[verifier::opaque]
pub open spec fn local_details(n: Node, flags: FeaturesFlag, code: Seq<u8>) -> Seq<DetailV> {
    let lo = n.span.lo as int;
    let hi = n.span.hi as int;
    match n.kind {
        NodeKind::MetaProp => emit(flags.new_target, code, Feature::NewTarget, lo, hi),
        NodeKind::ForOf => emit(flags.for_of, code, Feature::ForOf, lo, hi),
        NodeKind::ClassDecl => emit(flags.classes, code, Feature::Classes, lo, hi),
        NodeKind::ComputedPropName => emit(
            flags.computed_properties,
            code,
            Feature::ComputedProperties,
            lo,
            hi,
        ),
        NodeKind::ClassProp => emit(flags.class_properties, code, Feature::ClassProperties, lo, hi),
        NodeKind::ShorthandProp => emit(
            flags.shorthand_properties,
            code,
            Feature::ShorthandProperties,
            lo,
            hi,
        ),
        NodeKind::MethodProp => emit(
            flags.shorthand_properties,
            code,
            Feature::ShorthandProperties,
            lo,
            hi,
        ),
        NodeKind::Regex { sticky } => emit(
            sticky && flags.sticky_regex,
            code,
            Feature::StickyRegex,
            lo,
            hi,
        ),
        NodeKind::Tpl => emit(flags.template_literals, code, Feature::TemplateLiterals, lo, hi),
        NodeKind::VarDecl { .. } => var_decl_details(n, flags, code),
        NodeKind::StaticBlock => emit(
            flags.class_static_block,
            code,
            Feature::ClassStaticBlock,
            lo,
            hi,
        ),
        NodeKind::PrivateMethod => emit(flags.private_methods, code, Feature::PrivateMethods, lo, hi),
        NodeKind::PrivateProp => emit(flags.private_methods, code, Feature::PrivateMethods, lo, hi),
        NodeKind::Function { is_async, is_generator } => function_details(
            n,
            is_async,
            is_generator,
            flags,
            code,
        ),
        NodeKind::Arrow { is_async } => emit(
            is_async && flags.async_to_generator,
            code,
            Feature::AsyncToGenerator,
            lo,
            hi,
        ) + emit(flags.arrow_functions, code, Feature::ArrowFunctions, lo, hi),
        NodeKind::Bin { op } => bin_details(n, op, flags, code),
        NodeKind::OptChain => emit(flags.optional_chaining, code, Feature::OptionalChaining, lo, hi),
        NodeKind::SpreadArg => emit(
            flags.spread && n.children@.len() > 0,
            code,
            Feature::Spread,
            if n.children@.len() > 0 {
                n.children@[0].span.lo as int
            } else {
                lo
            },
            if n.children@.len() > 0 {
                n.children@[0].span.hi as int
            } else {
                hi
            },
        ),
        NodeKind::SpreadProp => emit(
            flags.object_rest_spread && n.children@.len() > 0,
            code,
            Feature::ObjectRestSpread,
            if n.children@.len() > 0 {
                n.children@[0].span.lo as int
            } else {
                lo
            },
            if n.children@.len() > 0 {
                n.children@[0].span.hi as int
            } else {
                hi
            },
        ),
        NodeKind::CatchClause { has_param } => emit(
            !has_param && flags.optional_catch_binding,
            code,
            Feature::OptionalCatchBinding,
            lo,
            hi,
        ),
        _ => Seq::empty(),
    }
}

/// All occurrence records the subtree rooted at `n` produces, in
/// traversal order: children first, except that a variable declaration
/// records its declarator-list classification before descending.
pub open spec fn node_details(n: Node, flags: FeaturesFlag, code: Seq<u8>) -> Seq<DetailV>
    decreases n, 1int,
{
    if n.kind is VarDecl {
        local_details(n, flags, code) + seq_details(n.children@, flags, code)
    } else {
        seq_details(n.children@, flags, code) + local_details(n, flags, code)
    }
}

/// All occurrence records a sequence of sibling subtrees produces.
pub open spec fn seq_details(s: Seq<Node>, flags: FeaturesFlag, code: Seq<u8>) -> Seq<DetailV>
    decreases s, 0int,
{
    if s.len() == 0 {
        Seq::empty()
    } else {
        node_details(s[0], flags, code) + seq_details(s.drop_first(), flags, code)
    }
}

/// Extending a processed prefix by one subtree appends that subtree's
/// records.
pub proof fn lemma_seq_details_take(s: Seq<Node>, flags: FeaturesFlag, code: Seq<u8>, k: int)
    requires
        0 <= k < s.len(),
    ensures
        seq_details(s.take(k + 1), flags, code) == seq_details(s.take(k), flags, code)
            + node_details(s[k], flags, code),
    decreases k,
{
    if k == 0 {
        assert(s.take(1) =~= seq![s[0]]);
        assert(s.take(1).drop_first() =~= Seq::<Node>::empty());
        assert(s.take(0) =~= Seq::<Node>::empty());
        assert(seq_details(s.take(1), flags, code) == node_details(s.take(1)[0], flags, code)
            + seq_details(s.take(1).drop_first(), flags, code));
        assert(node_details(s[0], flags, code) + Seq::<DetailV>::empty() =~= node_details(
            s[0],
            flags,
            code,
        ));
        assert(seq_details(s.take(0), flags, code) + node_details(s[0], flags, code)
            =~= node_details(s[0], flags, code));
    } else {
        lemma_seq_details_take(s.drop_first(), flags, code, k - 1);
        assert(s.take(k + 1).drop_first() =~= s.drop_first().take(k));
        assert(s.take(k).drop_first() =~= s.drop_first().take(k - 1));
        assert(s.take(k + 1)[0] == s[0]);
        assert(s.take(k)[0] == s[0]);
        assert(s.drop_first()[k - 1] == s[k]);
        assert(seq_details(s.take(k + 1), flags, code) == node_details(s[0], flags, code)
            + seq_details(s.drop_first().take(k), flags, code));
        assert(seq_details(s.take(k), flags, code) == node_details(s[0], flags, code)
            + seq_details(s.drop_first().take(k - 1), flags, code));
        assert(seq_details(s.take(k), flags, code) + node_details(s[k], flags, code)
            =~= node_details(s[0], flags, code) + (seq_details(s.drop_first().take(k - 1), flags,
            code) + node_details(s.drop_first()[k - 1], flags, code)));
    }
}

/// The feature set `flags` with feature `f` added when `on` holds.
#[verifier::opaque]
pub open spec fn or_flag(flags: FeaturesFlag, f: Feature, on: bool) -> FeaturesFlag {
    FeaturesFlag {
        regenerator: flags.regenerator || (on && f is Regenerator),
        function_name: flags.function_name || (on && f is FunctionName),
        new_target: flags.new_target || (on && f is NewTarget),
        object_super: flags.object_super || (on && f is ObjectSuper),
        typeof_symbol: flags.typeof_symbol || (on && f is TypeofSymbol),
        for_of: flags.for_of || (on && f is ForOf),
        classes: flags.classes || (on && f is Classes),
        spread: flags.spread || (on && f is Spread),
        class_properties: flags.class_properties || (on && f is ClassProperties),
        destructuring: flags.destructuring || (on && f is Destructuring),
        computed_properties: flags.computed_properties || (on && f is ComputedProperties),
        shorthand_properties: flags.shorthand_properties || (on && f is ShorthandProperties),
        sticky_regex: flags.sticky_regex || (on && f is StickyRegex),
        template_literals: flags.template_literals || (on && f is TemplateLiterals),
        parameters: flags.parameters || (on && f is Parameters),
        arrow_functions: flags.arrow_functions || (on && f is ArrowFunctions),
        block_scoping: flags.block_scoping || (on && f is BlockScoping),
        exponentiation_operator: flags.exponentiation_operator || (on && f
            is ExponentiationOperator),
        class_static_block: flags.class_static_block || (on && f is ClassStaticBlock),
        private_methods: flags.private_methods || (on && f is PrivateMethods),
        async_to_generator: flags.async_to_generator || (on && f is AsyncToGenerator),
        logical_assignment_operators: flags.logical_assignment_operators || (on && f
            is LogicalAssignmentOperators),
        nullish_coalescing: flags.nullish_coalescing || (on && f is NullishCoalescing),
        object_rest_spread: flags.object_rest_spread || (on && f is ObjectRestSpread),
        optional_chaining: flags.optional_chaining || (on && f is OptionalChaining),
        optional_catch_binding: flags.optional_catch_binding || (on && f is OptionalCatchBinding),
    }
}

/// Projecting a feature out of an extended feature set.
#[verifier::rlimit(100)]
#[verifier::spinoff_prover]
pub broadcast proof fn lemma_or_flag(flags: FeaturesFlag, f: Feature, on: bool, g: Feature)
    ensures
        #[trigger] flag_of(or_flag(flags, f, on), g) == (flag_of(flags, g) || (g == f && on)),
{
    reveal(or_flag);
    match g {
        Feature::Regenerator => {},
        Feature::FunctionName => {},
        Feature::NewTarget => {},
        Feature::ObjectSuper => {},
        Feature::TypeofSymbol => {},
        Feature::ForOf => {},
        Feature::Classes => {},
        Feature::Spread => {},
        Feature::ClassProperties => {},
        Feature::Destructuring => {},
        Feature::ComputedProperties => {},
        Feature::ShorthandProperties => {},
        Feature::StickyRegex => {},
        Feature::TemplateLiterals => {},
        Feature::Parameters => {},
        Feature::ArrowFunctions => {},
        Feature::BlockScoping => {},
        Feature::ExponentiationOperator => {},
        Feature::ClassStaticBlock => {},
        Feature::PrivateMethods => {},
        Feature::AsyncToGenerator => {},
        Feature::LogicalAssignmentOperators => {},
        Feature::NullishCoalescing => {},
        Feature::ObjectRestSpread => {},
        Feature::OptionalChaining => {},
        Feature::OptionalCatchBinding => {},
    }
}

/// Adding a feature conditioned on a false guard changes nothing.
#[verifier::rlimit(100)]
#[verifier::spinoff_prover]
pub broadcast proof fn lemma_or_flag_false(flags: FeaturesFlag, f: Feature)
    ensures
        #[trigger] or_flag(flags, f, false) == flags,
{
    reveal(or_flag);
}

/// The edition set `vs` with the bit of edition `v` added; editions
/// without a bit leave the set unchanged.
pub open spec fn or_version(vs: EsVersionSet, v: EsVersion) -> EsVersionSet {
    EsVersionSet {
        es2015: vs.es2015 || v is Es2015,
        es2016: vs.es2016 || v is Es2016,
        es2017: vs.es2017 || v is Es2017,
        es2018: vs.es2018 || v is Es2018,
        es2019: vs.es2019 || v is Es2019,
        es2020: vs.es2020 || v is Es2020,
        es2021: vs.es2021 || v is Es2021,
        es2022: vs.es2022 || v is Es2022,
    }
}

/// Adding a feature to the found set adds exactly its edition to the
/// implied set.
#[verifier::rlimit(100)]
#[verifier::spinoff_prover]
pub proof fn lemma_versions_or(flags: FeaturesFlag, f: Feature)
    ensures
        versions_of(or_flag(flags, f, true)) == or_version(versions_of(flags), feature_version(f)),
{
    reveal(or_flag);
}

/// Builds the feature set with `f` added.
#[verifier::rlimit(100)]
#[verifier::spinoff_prover]
fn add_flag(flags: &FeaturesFlag, f: Feature) -> (r: FeaturesFlag)
    ensures
        r == or_flag(*flags, f, true),
{
    proof {
        reveal(or_flag);
    }
    FeaturesFlag {
        regenerator: flags.regenerator || matches!(f, Feature::Regenerator),
        function_name: flags.function_name || matches!(f, Feature::FunctionName),
        new_target: flags.new_target || matches!(f, Feature::NewTarget),
        object_super: flags.object_super || matches!(f, Feature::ObjectSuper),
        typeof_symbol: flags.typeof_symbol || matches!(f, Feature::TypeofSymbol),
        for_of: flags.for_of || matches!(f, Feature::ForOf),
        classes: flags.classes || matches!(f, Feature::Classes),
        spread: flags.spread || matches!(f, Feature::Spread),
        class_properties: flags.class_properties || matches!(f, Feature::ClassProperties),
        destructuring: flags.destructuring || matches!(f, Feature::Destructuring),
        computed_properties: flags.computed_properties || matches!(f, Feature::ComputedProperties),
        shorthand_properties: flags.shorthand_properties || matches!(
            f,
            Feature::ShorthandProperties,
        ),
        sticky_regex: flags.sticky_regex || matches!(f, Feature::StickyRegex),
        template_literals: flags.template_literals || matches!(f, Feature::TemplateLiterals),
        parameters: flags.parameters || matches!(f, Feature::Parameters),
        arrow_functions: flags.arrow_functions || matches!(f, Feature::ArrowFunctions),
        block_scoping: flags.block_scoping || matches!(f, Feature::BlockScoping),
        exponentiation_operator: flags.exponentiation_operator || matches!(
            f,
            Feature::ExponentiationOperator,
        ),
        class_static_block: flags.class_static_block || matches!(f, Feature::ClassStaticBlock),
        private_methods: flags.private_methods || matches!(f, Feature::PrivateMethods),
        async_to_generator: flags.async_to_generator || matches!(f, Feature::AsyncToGenerator),
        logical_assignment_operators: flags.logical_assignment_operators || matches!(
            f,
            Feature::LogicalAssignmentOperators,
        ),
        nullish_coalescing: flags.nullish_coalescing || matches!(f, Feature::NullishCoalescing),
        object_rest_spread: flags.object_rest_spread || matches!(f, Feature::ObjectRestSpread),
        optional_chaining: flags.optional_chaining || matches!(f, Feature::OptionalChaining),
        optional_catch_binding: flags.optional_catch_binding || matches!(
            f,
            Feature::OptionalCatchBinding,
        ),
    }
}

/// Builds the edition set with the bit of `v` added.
fn add_version(vs: &EsVersionSet, v: EsVersion) -> (r: EsVersionSet)
    ensures
        r == or_version(*vs, v),
{
    EsVersionSet {
        es2015: vs.es2015 || matches!(v, EsVersion::Es2015),
        es2016: vs.es2016 || matches!(v, EsVersion::Es2016),
        es2017: vs.es2017 || matches!(v, EsVersion::Es2017),
        es2018: vs.es2018 || matches!(v, EsVersion::Es2018),
        es2019: vs.es2019 || matches!(v, EsVersion::Es2019),
        es2020: vs.es2020 || matches!(v, EsVersion::Es2020),
        es2021: vs.es2021 || matches!(v, EsVersion::Es2021),
        es2022: vs.es2022 || matches!(v, EsVersion::Es2022),
    }
}

/// The traversal state: the enabled-feature flags fixed for the run, the
/// features found so far, the editions they imply, the occurrence
/// records in traversal order, and the source bytes that spans refer to.
pub struct ESC {
    pub flags: FeaturesFlag,
    pub features: FeaturesFlag,
    pub es_versions: EsVersionSet,
    pub details: Vec<Detail>,
    pub code: Vec<u8>,
}

impl ESC {
    /// The state invariant: the implied-edition set always mirrors the
    /// found features, and the source is small enough for its positions
    /// to fit the reported integer type.
    pub open spec fn inv(self) -> bool {
        &&& self.es_versions == versions_of(self.features)
        &&& self.code@.len() < 0x4000_0000
    }
}

/// Builds the traversal state for one run: resolves the per-feature
/// enablement flags from the policy inputs, the resolved target support
/// and the explicit ceiling edition, and starts with nothing found.
pub fn compat(es_version: EsVersion, code: Vec<u8>, c: &Config, support: &TargetSupport) -> (r:
    ESC)
    requires
        code@.len() < 0x4000_0000,
    ensures
        r.flags == spec_resolve_flags(*c, *support, es_version),
        r.features == FeaturesFlag::spec_empty(),
        r.es_versions == EsVersionSet::spec_empty(),
        r.details@ =~= Seq::<Detail>::empty(),
        r.code@ == code@,
        r.inv(),
{
    ESC {
        flags: resolve_flags(c, support, es_version),
        features: FeaturesFlag::empty(),
        es_versions: EsVersionSet::empty(),
        details: Vec::new(),
        code,
    }
}


// ---------------------------------------------------------------------
// Executable subtree searches
// ---------------------------------------------------------------------

/// `has_nonident_seq` is existence of an occurrence.
proof fn lemma_has_nonident_seq_exists(s: Seq<Node>)
    ensures
        has_nonident_seq(s) <==> exists|i: int|
            0 <= i < s.len() && #[trigger] has_nonident(s[i]),
    decreases s,
{
    if s.len() > 0 {
        lemma_has_nonident_seq_exists(s.drop_first());
        if has_nonident_seq(s) && !has_nonident(s[0]) {
            let i = choose|i: int|
                0 <= i < s.drop_first().len() && #[trigger] has_nonident(s.drop_first()[i]);
            assert(s.drop_first()[i] == s[i + 1]);
            assert(has_nonident(s[i + 1]));
        }
        if exists|i: int| 0 <= i < s.len() && #[trigger] has_nonident(s[i]) {
            let i = choose|i: int| 0 <= i < s.len() && #[trigger] has_nonident(s[i]);
            if i > 0 {
                assert(s.drop_first()[i - 1] == s[i]);
            }
        }
    }
}

/// `has_restprop_seq` is existence of an occurrence.
proof fn lemma_has_restprop_seq_exists(s: Seq<Node>)
    ensures
        has_restprop_seq(s) <==> exists|i: int|
            0 <= i < s.len() && #[trigger] has_restprop(s[i]),
    decreases s,
{
    if s.len() > 0 {
        lemma_has_restprop_seq_exists(s.drop_first());
        if has_restprop_seq(s) && !has_restprop(s[0]) {
            let i = choose|i: int|
                0 <= i < s.drop_first().len() && #[trigger] has_restprop(s.drop_first()[i]);
            assert(s.drop_first()[i] == s[i + 1]);
            assert(has_restprop(s[i + 1]));
        }
        if exists|i: int| 0 <= i < s.len() && #[trigger] has_restprop(s[i]) {
            let i = choose|i: int| 0 <= i < s.len() && #[trigger] has_restprop(s[i]);
            if i > 0 {
                assert(s.drop_first()[i - 1] == s[i]);
            }
        }
    }
}

/// `has_superprop_seq` is existence of an occurrence.
proof fn lemma_has_superprop_seq_exists(s: Seq<Node>)
    ensures
        has_superprop_seq(s) <==> exists|i: int|
            0 <= i < s.len() && #[trigger] has_superprop(s[i]),
    decreases s,
{
    if s.len() > 0 {
        lemma_has_superprop_seq_exists(s.drop_first());
        if has_superprop_seq(s) && !has_superprop(s[0]) {
            let i = choose|i: int|
                0 <= i < s.drop_first().len() && #[trigger] has_superprop(s.drop_first()[i]);
            assert(s.drop_first()[i] == s[i + 1]);
            assert(has_superprop(s[i + 1]));
        }
        if exists|i: int| 0 <= i < s.len() && #[trigger] has_superprop(s[i]) {
            let i = choose|i: int| 0 <= i < s.len() && #[trigger] has_superprop(s[i]);
            if i > 0 {
                assert(s.drop_first()[i - 1] == s[i]);
            }
        }
    }
}

/// Does the subtree hold a non-identifier binding pattern?
fn node_has_nonident(n: &Node) -> (r: bool)
    ensures
        r == has_nonident(*n),
    decreases *n, 1int,
{
    if matches!(
        n.kind,
        NodeKind::ObjectPat
        | NodeKind::ArrayPat
        | NodeKind::RestPat
        | NodeKind::AssignPat
        | NodeKind::OtherPat
    ) {
        true
    } else {
        seq_has_nonident(&n.children)
    }
}

/// Does some subtree in the slice hold a non-identifier pattern?
fn seq_has_nonident(nodes: &Vec<Node>) -> (r: bool)
    ensures
        r == has_nonident_seq(nodes@),
    decreases *nodes, 0int,
{
    let mut k: usize = 0;
    while k < nodes.len()
        invariant
            0 <= k <= nodes@.len(),
            forall|i: int| 0 <= i < k ==> !(#[trigger] has_nonident(nodes@[i])),
        decreases nodes@.len() - k,
    {
        proof {
            assert(decreases_to!(nodes@ => nodes@[k as int]));
        }
        if node_has_nonident(&nodes[k]) {
            proof {
                lemma_has_nonident_seq_exists(nodes@);
            }
            return true;
        }
        k = k + 1;
    }
    proof {
        lemma_has_nonident_seq_exists(nodes@);
    }
    false
}

/// Does the subtree hold an object-pattern rest property?
fn node_has_restprop(n: &Node) -> (r: bool)
    ensures
        r == has_restprop(*n),
    decreases *n, 1int,
{
    if matches!(n.kind, NodeKind::RestProp) {
        true
    } else {
        seq_has_restprop(&n.children)
    }
}

/// Does some subtree in the slice hold an object-pattern rest property?
fn seq_has_restprop(nodes: &Vec<Node>) -> (r: bool)
    ensures
        r == has_restprop_seq(nodes@),
    decreases *nodes, 0int,
{
    let mut k: usize = 0;
    while k < nodes.len()
        invariant
            0 <= k <= nodes@.len(),
            forall|i: int| 0 <= i < k ==> !(#[trigger] has_restprop(nodes@[i])),
        decreases nodes@.len() - k,
    {
        proof {
            assert(decreases_to!(nodes@ => nodes@[k as int]));
        }
        if node_has_restprop(&nodes[k]) {
            proof {
                lemma_has_restprop_seq_exists(nodes@);
            }
            return true;
        }
        k = k + 1;
    }
    proof {
        lemma_has_restprop_seq_exists(nodes@);
    }
    false
}

/// Does the subtree hold a member access on `super`?
fn node_has_superprop(n: &Node) -> (r: bool)
    ensures
        r == has_superprop(*n),
    decreases *n, 1int,
{
    if matches!(n.kind, NodeKind::SuperProp) {
        true
    } else {
        seq_has_superprop(&n.children)
    }
}

/// Does some subtree in the slice hold a member access on `super`?
fn seq_has_superprop(nodes: &Vec<Node>) -> (r: bool)
    ensures
        r == has_superprop_seq(nodes@),
    decreases *nodes, 0int,
{
    let mut k: usize = 0;
    while k < nodes.len()
        invariant
            0 <= k <= nodes@.len(),
            forall|i: int| 0 <= i < k ==> !(#[trigger] has_superprop(nodes@[i])),
        decreases nodes@.len() - k,
    {
        proof {
            assert(decreases_to!(nodes@ => nodes@[k as int]));
        }
        if node_has_superprop(&nodes[k]) {
            proof {
                lemma_has_superprop_seq_exists(nodes@);
            }
            return true;
        }
        k = k + 1;
    }
    proof {
        lemma_has_superprop_seq_exists(nodes@);
    }
    false
}

/// Does some parameter hold a non-identifier pattern?
fn params_have_nonident(nodes: &Vec<Node>) -> (r: bool)
    ensures
        r == params_nonident(nodes@),
{
    let mut k: usize = 0;
    while k < nodes.len()
        invariant
            0 <= k <= nodes@.len(),
            forall|i: int|
                0 <= i < k ==> !((#[trigger] nodes@[i]).kind is Param && has_nonident(nodes@[i])),
        decreases nodes@.len() - k,
    {
        if matches!(nodes[k].kind, NodeKind::Param) && node_has_nonident(&nodes[k]) {
            return true;
        }
        k = k + 1;
    }
    false
}

/// Does some parameter hold an object-pattern rest property?
fn params_have_restprop(nodes: &Vec<Node>) -> (r: bool)
    ensures
        r == params_restprop(nodes@),
{
    let mut k: usize = 0;
    while k < nodes.len()
        invariant
            0 <= k <= nodes@.len(),
            forall|i: int|
                0 <= i < k ==> !((#[trigger] nodes@[i]).kind is Param && has_restprop(nodes@[i])),
        decreases nodes@.len() - k,
    {
        if matches!(nodes[k].kind, NodeKind::Param) && node_has_restprop(&nodes[k]) {
            return true;
        }
        k = k + 1;
    }
    false
}

/// Does some parameter bind a default or a rest pattern at top level?
fn params_have_top_assign_rest(nodes: &Vec<Node>) -> (r: bool)
    ensures
        r == has_top_assign_rest(nodes@),
{
    let mut k: usize = 0;
    while k < nodes.len()
        invariant
            0 <= k <= nodes@.len(),
            forall|i: int| 0 <= i < k ==> !param_top_assign_rest(#[trigger] nodes@[i]),
        decreases nodes@.len() - k,
    {
        if matches!(nodes[k].kind, NodeKind::Param) && nodes[k].children.len() > 0 && matches!(
            nodes[k].children[0].kind,
            NodeKind::AssignPat | NodeKind::RestPat,
        ) {
            return true;
        }
        k = k + 1;
    }
    false
}

// ---------------------------------------------------------------------
// Recording
// ---------------------------------------------------------------------

impl ESC {
    /// Marks feature `f` as found and inserts its edition into the
    /// implied set.
    fn mark_found(&mut self, f: Feature)
        requires
            old(self).inv(),
        ensures
            final(self).inv(),
            final(self).flags == old(self).flags,
            final(self).code == old(self).code,
            final(self).details == old(self).details,
            final(self).features == or_flag(old(self).features, f, true),
    {
        self.features = add_flag(&self.features, f);
        let fv = feature_version_of(f);
        self.es_versions = add_version(&self.es_versions, fv);
        proof {
            lemma_versions_or(old(self).features, f);
        }
    }

    /// Appends one occurrence record for feature `f` spanning bytes
    /// `[lo, hi)`.
    fn push_detail(&mut self, f: Feature, lo: u32, hi: u32)
        requires
            old(self).inv(),
            lo as int <= old(self).code@.len(),
            hi as int <= old(self).code@.len(),
        ensures
            final(self).inv(),
            final(self).flags == old(self).flags,
            final(self).features == old(self).features,
            final(self).es_versions == old(self).es_versions,
            final(self).code == old(self).code,
            final(self).details.deep_view() == old(self).details.deep_view() + seq![
                mk_detail(old(self).code@, f, lo as int, hi as int),
            ],
    {
        proof {
            lemma_char_count_bound(self.code@, lo as int);
            lemma_char_count_bound(self.code@, hi as int);
            lemma_newline_count_bound(self.code@, lo as int);
            lemma_newline_count_bound(self.code@, hi as int);
            lemma_col_nonneg(self.code@, lo as int);
            lemma_col_nonneg(self.code@, hi as int);
            lemma_line_start_bound(self.code@, lo as int);
            lemma_line_start_bound(self.code@, hi as int);
            lemma_char_count_le(self.code@, line_start_alias(self.code@, lo as int), lo as int);
            lemma_char_count_le(self.code@, line_start_alias(self.code@, hi as int), hi as int);
            lemma_char_count_bound(self.code@, line_start_alias(self.code@, lo as int));
            lemma_char_count_bound(self.code@, line_start_alias(self.code@, hi as int));
        }
        let (s_off, s_l, s_c) = resolve_pos(&self.code, lo as usize);
        let (e_off, e_l, e_c) = resolve_pos(&self.code, hi as usize);
        let d = Detail {
            feature: feature_name_of(f),
            s: s_off as i32,
            e: e_off as i32,
            ls: Line { l: s_l as i32, c: s_c as i32 },
            le: Line { l: e_l as i32, c: e_c as i32 },
        };
        self.details.push(d);
        proof {
            assert(self.details@ == old(self).details@.push(d));
            assert(self.details.deep_view() =~~= old(self).details.deep_view() + seq![
                mk_detail(old(self).code@, f, lo as int, hi as int),
            ]);
        }
    }

    /// Records feature `f` when `cond` holds and the feature is enabled:
    /// one occurrence record spanning `[lo, hi)` plus the found mark.
    fn record_one(&mut self, f: Feature, cond: bool, lo: u32, hi: u32)
        requires
            old(self).inv(),
            lo as int <= old(self).code@.len(),
            hi as int <= old(self).code@.len(),
        ensures
            final(self).inv(),
            final(self).flags == old(self).flags,
            final(self).code == old(self).code,
            final(self).details.deep_view() == old(self).details.deep_view() + emit(
                cond && flag_of(old(self).flags, f),
                old(self).code@,
                f,
                lo as int,
                hi as int,
            ),
            final(self).features == or_flag(
                old(self).features,
                f,
                cond && flag_of(old(self).flags, f),
            ),
    {
        if cond && flag_in(&self.flags, f) {
            self.push_detail(f, lo, hi);
            self.mark_found(f);
        } else {
            proof {
                lemma_or_flag_false(self.features, f);
                assert(self.details.deep_view() =~= old(self).details.deep_view() + emit(
                    cond && flag_of(old(self).flags, f),
                    old(self).code@,
                    f,
                    lo as int,
                    hi as int,
                ));
            }
        }
    }

    /// Marks feature `f` as found when `cond` holds and the feature is
    /// enabled, without an occurrence record.
    fn mark_one(&mut self, f: Feature, cond: bool)
        requires
            old(self).inv(),
        ensures
            final(self).inv(),
            final(self).flags == old(self).flags,
            final(self).code == old(self).code,
            final(self).details == old(self).details,
            final(self).features == or_flag(
                old(self).features,
                f,
                cond && flag_of(old(self).flags, f),
            ),
    {
        if cond && flag_in(&self.flags, f) {
            self.mark_found(f);
        } else {
            proof {
                lemma_or_flag_false(self.features, f);
            }
        }
    }
}

/// Alias so that proofs can name the line start inside this module.
pub open spec fn line_start_alias(code: Seq<u8>, p: int) -> int {
    crate::span::line_start(code, p)
}


impl ESC {
    /// Records what node `n` itself exhibits: the found marks and the
    /// occurrence records of [`local_details`].
    #[verifier::rlimit(100)]
    #[verifier::spinoff_prover]
    fn record_local(&mut self, n: &Node)
        requires
            old(self).inv(),
            wf_node(*n, old(self).code@),
        ensures
            final(self).inv(),
            final(self).flags == old(self).flags,
            final(self).code == old(self).code,
            final(self).details.deep_view() == old(self).details.deep_view() + local_details(
                *n,
                old(self).flags,
                old(self).code@,
            ),
            forall|g: Feature| #![trigger flag_of(final(self).features, g)]
                flag_of(final(self).features, g) == (flag_of(old(self).features, g) || (flag_of(
                    final(self).flags,
                    g,
                ) && triggers(g, *n))),
    {
        broadcast use lemma_or_flag;

        proof {
            reveal(local_details);
            reveal(triggers);
        }
        let lo = n.span.lo;
        let hi = n.span.hi;
        match n.kind {
            NodeKind::MetaProp => {
                self.record_one(Feature::NewTarget, true, lo, hi);
            },
            NodeKind::ForOf => {
                self.record_one(Feature::ForOf, true, lo, hi);
            },
            NodeKind::ClassDecl => {
                self.record_one(Feature::Classes, true, lo, hi);
            },
            NodeKind::ComputedPropName => {
                self.record_one(Feature::ComputedProperties, true, lo, hi);
            },
            NodeKind::ClassProp => {
                self.record_one(Feature::ClassProperties, true, lo, hi);
            },
            NodeKind::ShorthandProp => {
                self.record_one(Feature::ShorthandProperties, true, lo, hi);
            },
            NodeKind::MethodProp => {
                self.record_one(Feature::ShorthandProperties, true, lo, hi);
            },
            NodeKind::Regex { sticky } => {
                self.record_one(Feature::StickyRegex, sticky, lo, hi);
            },
            NodeKind::Tpl => {
                self.record_one(Feature::TemplateLiterals, true, lo, hi);
            },
            NodeKind::StaticBlock => {
                self.record_one(Feature::ClassStaticBlock, true, lo, hi);
            },
            NodeKind::PrivateMethod => {
                self.record_one(Feature::PrivateMethods, true, lo, hi);
            },
            NodeKind::PrivateProp => {
                self.record_one(Feature::PrivateMethods, true, lo, hi);
            },
            NodeKind::OptChain => {
                self.record_one(Feature::OptionalChaining, true, lo, hi);
            },
            NodeKind::CatchClause { has_param } => {
                self.record_one(Feature::OptionalCatchBinding, !has_param, lo, hi);
            },
            NodeKind::SpreadArg => {
                if n.children.len() > 0 {
                    proof {
                        lemma_wf_nodes_index(n.children@, self.code@, 0);
                    }
                    let c = &n.children[0];
                    self.record_one(Feature::Spread, true, c.span.lo, c.span.hi);
                } else {
                    self.mark_one(Feature::Spread, true);
                }
            },
            NodeKind::SpreadProp => {
                if n.children.len() > 0 {
                    proof {
                        lemma_wf_nodes_index(n.children@, self.code@, 0);
                    }
                    let c = &n.children[0];
                    self.record_one(Feature::ObjectRestSpread, true, c.span.lo, c.span.hi);
                } else {
                    self.mark_one(Feature::ObjectRestSpread, true);
                }
            },
            NodeKind::Arrow { is_async } => {
                self.record_one(Feature::AsyncToGenerator, is_async, lo, hi);
                self.record_one(Feature::ArrowFunctions, true, lo, hi);
                proof {
                    assert(self.details.deep_view() =~= old(self).details.deep_view()
                        + local_details(*n, old(self).flags, old(self).code@));
                }
            },
            NodeKind::Assign { op } => {
                let logical = matches!(
                    op,
                    AssignOpKind::AndAssign | AssignOpKind::OrAssign | AssignOpKind::NullishAssign,
                );
                self.mark_one(Feature::LogicalAssignmentOperators, logical);
                self.mark_one(Feature::ExponentiationOperator, matches!(op, AssignOpKind::ExpAssign));
            },
            _ => {
                if matches!(
                    n.kind,
                    NodeKind::Bin { .. } | NodeKind::Function { .. } | NodeKind::VarDecl { .. },
                ) {
                    self.record_compound(n);
                } else {
                    proof {
                        assert(self.details.deep_view() =~= old(self).details.deep_view()
                            + local_details(*n, old(self).flags, old(self).code@));
                    }
                }
            },
        }
    }

    /// Records what a binary expression, function or variable
    /// declaration exhibits.
    #[verifier::rlimit(100)]
    #[verifier::spinoff_prover]
    fn record_compound(&mut self, n: &Node)
        requires
            old(self).inv(),
            wf_node(*n, old(self).code@),
            n.kind is Bin || n.kind is Function || n.kind is VarDecl,
        ensures
            final(self).inv(),
            final(self).flags == old(self).flags,
            final(self).code == old(self).code,
            final(self).details.deep_view() == old(self).details.deep_view() + local_details(
                *n,
                old(self).flags,
                old(self).code@,
            ),
            forall|g: Feature| #![trigger flag_of(final(self).features, g)]
                flag_of(final(self).features, g) == (flag_of(old(self).features, g) || (flag_of(
                    final(self).flags,
                    g,
                ) && triggers(g, *n))),
    {
        broadcast use lemma_or_flag;

        proof {
            reveal(local_details);
            reveal(triggers);
        }
        let lo = n.span.lo;
        let hi = n.span.hi;
        match n.kind {
            NodeKind::Bin { op } => {
                match op {
                    BinOpKind::NullishCoalescing => {
                        self.record_one(Feature::NullishCoalescing, true, lo, hi);
                    },
                    BinOpKind::Exp => {
                        self.record_one(Feature::ExponentiationOperator, true, lo, hi);
                    },
                    BinOpKind::Other => {},
                    _ => {
                        let two = n.children.len() >= 2;
                        let c1 = two && matches!(n.children[0].kind, NodeKind::TypeofExpr)
                            && matches!(n.children[1].kind, NodeKind::SymbolLit);
                        let c2 = two && matches!(n.children[1].kind, NodeKind::TypeofExpr)
                            && matches!(n.children[0].kind, NodeKind::SymbolLit);
                        self.record_one(Feature::TypeofSymbol, c1, lo, hi);
                        self.record_one(Feature::TypeofSymbol, c2, lo, hi);
                        proof {
                            assert(self.details.deep_view() =~= old(self).details.deep_view()
                                + local_details(*n, old(self).flags, old(self).code@));
                        }
                    },
                }
            },
            NodeKind::Function { is_async, is_generator } => {
                let has_d = params_have_nonident(&n.children);
                let has_r = params_have_restprop(&n.children);
                let has_t = params_have_top_assign_rest(&n.children);
                self.record_one(Feature::Destructuring, has_d && !has_r, lo, hi);
                self.record_one(Feature::ObjectRestSpread, has_r, lo, hi);
                self.record_one(Feature::Parameters, has_t, lo, hi);
                self.record_one(Feature::AsyncToGenerator, is_async, lo, hi);
                self.record_one(Feature::Regenerator, is_generator, lo, hi);
                proof {
                    assert(self.details.deep_view() =~= old(self).details.deep_view()
                        + local_details(*n, old(self).flags, old(self).code@));
                }
            },
            NodeKind::VarDecl { block_scoped } => {
                self.mark_one(Feature::BlockScoping, block_scoped);
                if n.children.len() > 0 {
                    proof {
                        lemma_wf_nodes_index(n.children@, self.code@, 0);
                        lemma_wf_nodes_index(
                            n.children@,
                            self.code@,
                            n.children@.len() as int - 1,
                        );
                    }
                    let dlo = n.children[0].span.lo;
                    let dhi = n.children[n.children.len() - 1].span.hi;
                    let has_d = seq_has_nonident(&n.children);
                    let has_r = seq_has_restprop(&n.children);
                    let has_s = seq_has_superprop(&n.children);
                    self.record_one(Feature::Destructuring, has_d && !has_r, dlo, dhi);
                    self.record_one(Feature::ObjectRestSpread, has_r, dlo, dhi);
                    self.record_one(Feature::ObjectSuper, has_s, dlo, dhi);
                    proof {
                        assert(self.details.deep_view() =~= old(self).details.deep_view()
                            + local_details(*n, old(self).flags, old(self).code@));
                    }
                }
            },
            _ => {},
        }
    }


    /// Walks the nodes of `nodes` in order, accumulating found features,
    /// implied editions and occurrence records.
    fn walk_nodes(&mut self, nodes: &Vec<Node>)
        requires
            old(self).inv(),
            wf_nodes(nodes@, old(self).code@),
        ensures
            final(self).inv(),
            final(self).flags == old(self).flags,
            final(self).code == old(self).code,
            final(self).details.deep_view() == old(self).details.deep_view() + seq_details(
                nodes@,
                old(self).flags,
                old(self).code@,
            ),
            forall|g: Feature| #![trigger flag_of(final(self).features, g)]
                flag_of(final(self).features, g) == (flag_of(old(self).features, g) || (flag_of(
                    final(self).flags,
                    g,
                ) && found_in_seq(g, nodes@))),
        decreases *nodes, 0int,
    {
        let ghost orig = *self;
        let mut k: usize = 0;
        while k < nodes.len()
            invariant
                0 <= k <= nodes@.len(),
                self.inv(),
                self.flags == orig.flags,
                self.code == orig.code,
                wf_nodes(nodes@, orig.code@),
                self.details.deep_view() == orig.details.deep_view() + seq_details(
                    nodes@.take(k as int),
                    orig.flags,
                    orig.code@,
                ),
                forall|g: Feature| #![trigger flag_of(self.features, g)]
                    flag_of(self.features, g) == (flag_of(orig.features, g) || (flag_of(
                        self.flags,
                        g,
                    ) && exists|i: int|
                        0 <= i < k && #[trigger] found_in(g, nodes@[i]))),
            decreases nodes@.len() - k,
        {
            let ghost before = *self;
            proof {
                lemma_wf_nodes_index(nodes@, orig.code@, k as int);
                assert(decreases_to!(nodes@ => nodes@[k as int]));
            }
            self.walk_node(&nodes[k]);
            proof {
                lemma_seq_details_take(nodes@, orig.flags, orig.code@, k as int);
                assert(self.details.deep_view() =~= orig.details.deep_view() + seq_details(
                    nodes@.take(k as int + 1),
                    orig.flags,
                    orig.code@,
                ));
                assert forall|g: Feature| #![trigger flag_of(self.features, g)]
                    flag_of(self.features, g) == (flag_of(orig.features, g) || (flag_of(
                        self.flags,
                        g,
                    ) && exists|i: int|
                        0 <= i < k + 1 && #[trigger] found_in(g, nodes@[i]))) by {
                    if flag_of(self.features, g) {
                        if flag_of(before.features, g) {
                            if !flag_of(orig.features, g) {
                                let i = choose|i: int|
                                    0 <= i < k && #[trigger] found_in(g, nodes@[i]);
                                assert(0 <= i < k + 1 && found_in(g, nodes@[i]));
                            }
                        } else {
                            assert(found_in(g, nodes@[k as int]));
                            assert(0 <= k < k + 1 && found_in(g, nodes@[k as int]));
                        }
                    } else {
                        assert(!flag_of(before.features, g));
                        if flag_of(self.flags, g) && exists|i: int|
                            0 <= i < k + 1 && #[trigger] found_in(g, nodes@[i]) {
                            let i = choose|i: int|
                                0 <= i < k + 1 && #[trigger] found_in(g, nodes@[i]);
                            if i < k {
                                assert(flag_of(before.features, g));
                            } else {
                                assert(found_in(g, nodes@[k as int]));
                                assert(flag_of(self.features, g));
                            }
                            assert(false);
                        }
                    }
                }
            }
            k = k + 1;
        }
        proof {
            assert(nodes@.take(nodes@.len() as int) =~= nodes@);
            assert forall|g: Feature| #![trigger flag_of(self.features, g)]
                flag_of(self.features, g) == (flag_of(orig.features, g) || (flag_of(self.flags, g)
                    && found_in_seq(g, nodes@))) by {
                lemma_found_in_seq_exists(g, nodes@);
            }
        }
    }

    /// Walks one subtree: a variable declaration records its
    /// declarator-list classification before descending; every other
    /// node records after its children, as the traversal returns.
    fn walk_node(&mut self, n: &Node)
        requires
            old(self).inv(),
            wf_node(*n, old(self).code@),
        ensures
            final(self).inv(),
            final(self).flags == old(self).flags,
            final(self).code == old(self).code,
            final(self).details.deep_view() == old(self).details.deep_view() + node_details(
                *n,
                old(self).flags,
                old(self).code@,
            ),
            forall|g: Feature| #![trigger flag_of(final(self).features, g)]
                flag_of(final(self).features, g) == (flag_of(old(self).features, g) || (flag_of(
                    final(self).flags,
                    g,
                ) && found_in(g, *n))),
        decreases *n, 1int,
    {
        if matches!(n.kind, NodeKind::VarDecl { .. }) {
            self.record_local(n);
            self.walk_nodes(&n.children);
        } else {
            self.walk_nodes(&n.children);
            self.record_local(n);
        }
        proof {
            assert(final(self).details.deep_view() =~= old(self).details.deep_view()
                + node_details(*n, old(self).flags, old(self).code@));
        }
    }

    /// Walks a whole program.
    pub fn visit_program(&mut self, p: &Program)
        requires
            old(self).inv(),
            wf_program(*p, old(self).code@),
        ensures
            final(self).inv(),
            final(self).flags == old(self).flags,
            final(self).code == old(self).code,
            final(self).details.deep_view() == old(self).details.deep_view() + seq_details(
                p.body@,
                old(self).flags,
                old(self).code@,
            ),
            forall|g: Feature| #![trigger flag_of(final(self).features, g)]
                flag_of(final(self).features, g) == (flag_of(old(self).features, g) || (flag_of(
                    final(self).flags,
                    g,
                ) && found_in_seq(g, p.body@))),
    {
        self.walk_nodes(&p.body);
    }
}


/// Round trip of an occurrence record's offsets: a record made for a
/// non-empty span that starts on a character boundary has its start
/// character offset strictly before its end offset, and both offsets
/// lie within the text, so slicing the original text at them yields a
/// non-empty substring of it.
pub proof fn lemma_detail_round_trip(code: Seq<u8>, f: Feature, lo: int, hi: int)
    requires
        0 <= lo < hi <= code.len(),
        crate::ast::is_boundary(code, lo),
    ensures
        mk_detail(code, f, lo, hi).s < mk_detail(code, f, lo, hi).e,
        0 <= mk_detail(code, f, lo, hi).s,
        mk_detail(code, f, lo, hi).e <= char_count(code, code.len() as int),
{
    crate::span::lemma_char_count_strict(code, lo, hi);
    lemma_char_count_bound(code, lo);
    lemma_char_count_le(code, hi, code.len() as int);
}


/// An occurrence record whose character offsets slice a non-empty
/// substring of the text: start strictly before end, both within the
/// text's character count.
pub open spec fn detail_in_range(d: DetailV, code: Seq<u8>) -> bool {
    0 <= d.s && d.s < d.e && d.e <= char_count(code, code.len() as int)
}

/// Every record of the sequence is in range.
pub open spec fn details_in_range(ds: Seq<DetailV>, code: Seq<u8>) -> bool {
    forall|k: int| 0 <= k < ds.len() ==> detail_in_range(#[trigger] ds[k], code)
}

/// Concatenation preserves the range property.
proof fn lemma_concat_in_range(a: Seq<DetailV>, b: Seq<DetailV>, code: Seq<u8>)
    requires
        details_in_range(a, code),
        details_in_range(b, code),
    ensures
        details_in_range(a + b, code),
{
    assert forall|k: int| 0 <= k < (a + b).len() implies detail_in_range(
        #[trigger] (a + b)[k],
        code,
    ) by {
        if k < a.len() {
            assert((a + b)[k] == a[k]);
        } else {
            assert((a + b)[k] == b[k - a.len()]);
        }
    }
}

/// A conditional emission over a non-empty boundary span is in range.
proof fn lemma_emit_in_range(b: bool, code: Seq<u8>, f: Feature, lo: int, hi: int)
    requires
        b ==> 0 <= lo < hi <= code.len() && crate::ast::is_boundary(code, lo),
    ensures
        details_in_range(emit(b, code, f, lo, hi), code),
{
    if b {
        lemma_detail_round_trip(code, f, lo, hi);
    }
}

/// The records a single node emits for itself are in range.
#[verifier::rlimit(100)]
#[verifier::spinoff_prover]
proof fn lemma_local_details_in_range(n: Node, flags: FeaturesFlag, code: Seq<u8>)
    requires
        wf_node(n, code),
    ensures
        details_in_range(local_details(n, flags, code), code),
{
    reveal(local_details);
    let lo = n.span.lo as int;
    let hi = n.span.hi as int;
    match n.kind {
        NodeKind::MetaProp => lemma_emit_in_range(flags.new_target, code, Feature::NewTarget, lo, hi),
        NodeKind::ForOf => lemma_emit_in_range(flags.for_of, code, Feature::ForOf, lo, hi),
        NodeKind::ClassDecl => lemma_emit_in_range(flags.classes, code, Feature::Classes, lo, hi),
        NodeKind::ComputedPropName => lemma_emit_in_range(
            flags.computed_properties,
            code,
            Feature::ComputedProperties,
            lo,
            hi,
        ),
        NodeKind::ClassProp => lemma_emit_in_range(
            flags.class_properties,
            code,
            Feature::ClassProperties,
            lo,
            hi,
        ),
        NodeKind::ShorthandProp => lemma_emit_in_range(
            flags.shorthand_properties,
            code,
            Feature::ShorthandProperties,
            lo,
            hi,
        ),
        NodeKind::MethodProp => lemma_emit_in_range(
            flags.shorthand_properties,
            code,
            Feature::ShorthandProperties,
            lo,
            hi,
        ),
        NodeKind::Regex { sticky } => lemma_emit_in_range(
            sticky && flags.sticky_regex,
            code,
            Feature::StickyRegex,
            lo,
            hi,
        ),
        NodeKind::Tpl => lemma_emit_in_range(
            flags.template_literals,
            code,
            Feature::TemplateLiterals,
            lo,
            hi,
        ),
        NodeKind::StaticBlock => lemma_emit_in_range(
            flags.class_static_block,
            code,
            Feature::ClassStaticBlock,
            lo,
            hi,
        ),
        NodeKind::PrivateMethod => lemma_emit_in_range(
            flags.private_methods,
            code,
            Feature::PrivateMethods,
            lo,
            hi,
        ),
        NodeKind::PrivateProp => lemma_emit_in_range(
            flags.private_methods,
            code,
            Feature::PrivateMethods,
            lo,
            hi,
        ),
        NodeKind::OptChain => lemma_emit_in_range(
            flags.optional_chaining,
            code,
            Feature::OptionalChaining,
            lo,
            hi,
        ),
        NodeKind::CatchClause { has_param } => lemma_emit_in_range(
            !has_param && flags.optional_catch_binding,
            code,
            Feature::OptionalCatchBinding,
            lo,
            hi,
        ),
        NodeKind::SpreadArg => {
            if n.children@.len() > 0 {
                lemma_wf_nodes_index(n.children@, code, 0);
                lemma_emit_in_range(
                    flags.spread && n.children@.len() > 0,
                    code,
                    Feature::Spread,
                    n.children@[0].span.lo as int,
                    n.children@[0].span.hi as int,
                );
            } else {
                lemma_emit_in_range(false, code, Feature::Spread, lo, hi);
            }
        },
        NodeKind::SpreadProp => {
            if n.children@.len() > 0 {
                lemma_wf_nodes_index(n.children@, code, 0);
                lemma_emit_in_range(
                    flags.object_rest_spread && n.children@.len() > 0,
                    code,
                    Feature::ObjectRestSpread,
                    n.children@[0].span.lo as int,
                    n.children@[0].span.hi as int,
                );
            } else {
                lemma_emit_in_range(false, code, Feature::ObjectRestSpread, lo, hi);
            }
        },
        NodeKind::Arrow { is_async } => {
            let e1 = emit(
                is_async && flags.async_to_generator,
                code,
                Feature::AsyncToGenerator,
                lo,
                hi,
            );
            let e2 = emit(flags.arrow_functions, code, Feature::ArrowFunctions, lo, hi);
            lemma_emit_in_range(
                is_async && flags.async_to_generator,
                code,
                Feature::AsyncToGenerator,
                lo,
                hi,
            );
            lemma_emit_in_range(flags.arrow_functions, code, Feature::ArrowFunctions, lo, hi);
            lemma_concat_in_range(e1, e2, code);
        },
        NodeKind::Function { is_async, is_generator } => {
            let e1 = emit(
                params_nonident(n.children@) && !params_restprop(n.children@)
                    && flags.destructuring,
                code,
                Feature::Destructuring,
                lo,
                hi,
            );
            let e2 = emit(
                params_restprop(n.children@) && flags.object_rest_spread,
                code,
                Feature::ObjectRestSpread,
                lo,
                hi,
            );
            let e3 = emit(
                has_top_assign_rest(n.children@) && flags.parameters,
                code,
                Feature::Parameters,
                lo,
                hi,
            );
            let e4 = emit(
                is_async && flags.async_to_generator,
                code,
                Feature::AsyncToGenerator,
                lo,
                hi,
            );
            let e5 = emit(is_generator && flags.regenerator, code, Feature::Regenerator, lo, hi);
            lemma_emit_in_range(
                params_nonident(n.children@) && !params_restprop(n.children@)
                    && flags.destructuring,
                code,
                Feature::Destructuring,
                lo,
                hi,
            );
            lemma_emit_in_range(
                params_restprop(n.children@) && flags.object_rest_spread,
                code,
                Feature::ObjectRestSpread,
                lo,
                hi,
            );
            lemma_emit_in_range(
                has_top_assign_rest(n.children@) && flags.parameters,
                code,
                Feature::Parameters,
                lo,
                hi,
            );
            lemma_emit_in_range(
                is_async && flags.async_to_generator,
                code,
                Feature::AsyncToGenerator,
                lo,
                hi,
            );
            lemma_emit_in_range(is_generator && flags.regenerator, code, Feature::Regenerator, lo, hi);
            lemma_concat_in_range(e1, e2, code);
            lemma_concat_in_range(e1 + e2, e3, code);
            lemma_concat_in_range(e1 + e2 + e3, e4, code);
            lemma_concat_in_range(e1 + e2 + e3 + e4, e5, code);
        },
        NodeKind::VarDecl { .. } => {
            if n.children@.len() > 0 {
                let last = n.children@.len() - 1;
                lemma_wf_nodes_index(n.children@, code, 0);
                lemma_wf_nodes_index(n.children@, code, last);
                crate::ast::lemma_ordered_span(n.children@, code);
                let dlo = n.children@[0].span.lo as int;
                let dhi = n.children@[last].span.hi as int;
                let e1 = emit(
                    has_nonident_seq(n.children@) && !has_restprop_seq(n.children@)
                        && flags.destructuring,
                    code,
                    Feature::Destructuring,
                    dlo,
                    dhi,
                );
                let e2 = emit(
                    has_restprop_seq(n.children@) && flags.object_rest_spread,
                    code,
                    Feature::ObjectRestSpread,
                    dlo,
                    dhi,
                );
                let e3 = emit(
                    has_superprop_seq(n.children@) && flags.object_super,
                    code,
                    Feature::ObjectSuper,
                    dlo,
                    dhi,
                );
                lemma_emit_in_range(
                    has_nonident_seq(n.children@) && !has_restprop_seq(n.children@)
                        && flags.destructuring,
                    code,
                    Feature::Destructuring,
                    dlo,
                    dhi,
                );
                lemma_emit_in_range(
                    has_restprop_seq(n.children@) && flags.object_rest_spread,
                    code,
                    Feature::ObjectRestSpread,
                    dlo,
                    dhi,
                );
                lemma_emit_in_range(
                    has_superprop_seq(n.children@) && flags.object_super,
                    code,
                    Feature::ObjectSuper,
                    dlo,
                    dhi,
                );
                lemma_concat_in_range(e1, e2, code);
                lemma_concat_in_range(e1 + e2, e3, code);
            }
        },
        NodeKind::Bin { op } => {
            match op {
                BinOpKind::NullishCoalescing => lemma_emit_in_range(
                    flags.nullish_coalescing,
                    code,
                    Feature::NullishCoalescing,
                    lo,
                    hi,
                ),
                BinOpKind::Exp => lemma_emit_in_range(
                    flags.exponentiation_operator,
                    code,
                    Feature::ExponentiationOperator,
                    lo,
                    hi,
                ),
                BinOpKind::Other => {},
                _ => {
                    let c1 = flags.typeof_symbol && n.children@.len() >= 2 && n.children@[0].kind
                        is TypeofExpr && n.children@[1].kind is SymbolLit;
                    let c2 = flags.typeof_symbol && n.children@.len() >= 2 && n.children@[1].kind
                        is TypeofExpr && n.children@[0].kind is SymbolLit;
                    let e1 = emit(c1, code, Feature::TypeofSymbol, lo, hi);
                    let e2 = emit(c2, code, Feature::TypeofSymbol, lo, hi);
                    lemma_emit_in_range(c1, code, Feature::TypeofSymbol, lo, hi);
                    lemma_emit_in_range(c2, code, Feature::TypeofSymbol, lo, hi);
                    lemma_concat_in_range(e1, e2, code);
                },
            }
        },
        _ => {},
    }
}

/// Every record the subtree rooted at a well-formed node produces is in
/// range.
pub proof fn lemma_node_details_in_range(n: Node, flags: FeaturesFlag, code: Seq<u8>)
    requires
        wf_node(n, code),
    ensures
        details_in_range(node_details(n, flags, code), code),
    decreases n, 1int,
{
    lemma_local_details_in_range(n, flags, code);
    lemma_seq_details_in_range(n.children@, flags, code);
    if n.kind is VarDecl {
        lemma_concat_in_range(
            local_details(n, flags, code),
            seq_details(n.children@, flags, code),
            code,
        );
    } else {
        lemma_concat_in_range(
            seq_details(n.children@, flags, code),
            local_details(n, flags, code),
            code,
        );
    }
}

/// Every record a well-formed sequence of sibling subtrees produces is
/// in range: item P3's round trip holds of a whole traversal, since the
/// records of a detection run equal `seq_details` of its tree.
pub proof fn lemma_seq_details_in_range(s: Seq<Node>, flags: FeaturesFlag, code: Seq<u8>)
    requires
        wf_nodes(s, code),
    ensures
        details_in_range(seq_details(s, flags, code), code),
    decreases s, 0int,
{
    if s.len() > 0 {
        lemma_node_details_in_range(s[0], flags, code);
        lemma_seq_details_in_range(s.drop_first(), flags, code);
        lemma_concat_in_range(
            node_details(s[0], flags, code),
            seq_details(s.drop_first(), flags, code),
            code,
        );
    }
}


/// The set of features occurring anywhere under the given nodes.
#[verifier::opaque]
pub open spec fn occurring_features(s: Seq<Node>) -> FeaturesFlag {
    FeaturesFlag {
        regenerator: found_in_seq(Feature::Regenerator, s),
        function_name: found_in_seq(Feature::FunctionName, s),
        new_target: found_in_seq(Feature::NewTarget, s),
        object_super: found_in_seq(Feature::ObjectSuper, s),
        typeof_symbol: found_in_seq(Feature::TypeofSymbol, s),
        for_of: found_in_seq(Feature::ForOf, s),
        classes: found_in_seq(Feature::Classes, s),
        spread: found_in_seq(Feature::Spread, s),
        class_properties: found_in_seq(Feature::ClassProperties, s),
        destructuring: found_in_seq(Feature::Destructuring, s),
        computed_properties: found_in_seq(Feature::ComputedProperties, s),
        shorthand_properties: found_in_seq(Feature::ShorthandProperties, s),
        sticky_regex: found_in_seq(Feature::StickyRegex, s),
        template_literals: found_in_seq(Feature::TemplateLiterals, s),
        parameters: found_in_seq(Feature::Parameters, s),
        arrow_functions: found_in_seq(Feature::ArrowFunctions, s),
        block_scoping: found_in_seq(Feature::BlockScoping, s),
        exponentiation_operator: found_in_seq(Feature::ExponentiationOperator, s),
        class_static_block: found_in_seq(Feature::ClassStaticBlock, s),
        private_methods: found_in_seq(Feature::PrivateMethods, s),
        async_to_generator: found_in_seq(Feature::AsyncToGenerator, s),
        logical_assignment_operators: found_in_seq(Feature::LogicalAssignmentOperators, s),
        nullish_coalescing: found_in_seq(Feature::NullishCoalescing, s),
        object_rest_spread: found_in_seq(Feature::ObjectRestSpread, s),
        optional_chaining: found_in_seq(Feature::OptionalChaining, s),
        optional_catch_binding: found_in_seq(Feature::OptionalCatchBinding, s),
    }
}

/// Projecting one feature out of the occurrence set.
#[verifier::rlimit(100)]
#[verifier::spinoff_prover]
pub proof fn lemma_occurring_features(s: Seq<Node>, f: Feature)
    ensures
        flag_of(occurring_features(s), f) == found_in_seq(f, s),
{
    reveal(occurring_features);
    match f {
        Feature::Regenerator => {},
        Feature::FunctionName => {},
        Feature::NewTarget => {},
        Feature::ObjectSuper => {},
        Feature::TypeofSymbol => {},
        Feature::ForOf => {},
        Feature::Classes => {},
        Feature::Spread => {},
        Feature::ClassProperties => {},
        Feature::Destructuring => {},
        Feature::ComputedProperties => {},
        Feature::ShorthandProperties => {},
        Feature::StickyRegex => {},
        Feature::TemplateLiterals => {},
        Feature::Parameters => {},
        Feature::ArrowFunctions => {},
        Feature::BlockScoping => {},
        Feature::ExponentiationOperator => {},
        Feature::ClassStaticBlock => {},
        Feature::PrivateMethods => {},
        Feature::AsyncToGenerator => {},
        Feature::LogicalAssignmentOperators => {},
        Feature::NullishCoalescing => {},
        Feature::ObjectRestSpread => {},
        Feature::OptionalChaining => {},
        Feature::OptionalCatchBinding => {},
    }
}


/// Two found-feature sets computed from the same enabled flags over the
/// same nodes are equal.
#[verifier::rlimit(100)]
#[verifier::spinoff_prover]
pub proof fn lemma_found_deterministic(
    flags: FeaturesFlag,
    s: Seq<Node>,
    a: FeaturesFlag,
    b: FeaturesFlag,
)
    requires
        forall|f: Feature| #![trigger flag_of(a, f)]
            flag_of(a, f) == (flag_of(flags, f) && found_in_seq(f, s)),
        forall|f: Feature| #![trigger flag_of(b, f)]
            flag_of(b, f) == (flag_of(flags, f) && found_in_seq(f, s)),
    ensures
        a == b,
{
    let occ = occurring_features(s);
    assert forall|f: Feature| #![trigger flag_of(a, f)]
        flag_of(a, f) == (flag_of(flags, f) && flag_of(occ, f)) by {
        lemma_occurring_features(s, f);
    }
    assert forall|f: Feature| #![trigger flag_of(b, f)]
        flag_of(b, f) == (flag_of(flags, f) && flag_of(occ, f)) by {
        lemma_occurring_features(s, f);
    }
    crate::features::lemma_found_features_deterministic(flags, occ, a, b);
}

} // verus!
