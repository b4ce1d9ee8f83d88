//! Detection of ECMAScript syntax features in parsed source code.
//!
//! The crate decides, per feature, whether a set of target environments
//! needs the feature transformed, walks a syntax tree recording feature
//! occurrences with precise source spans, and resolves generated
//! positions back to original ones through a source map.

pub mod ast;
pub mod esc;
pub mod features;
pub mod jsonchars;
pub mod policy;
pub mod smap;
pub mod span;

use vstd::prelude::*;
use vstd::string::{StrSliceExecFns, StringExecFns};
use crate::ast::{Node, NodeKind, Program, check_wf_program, wf_program};
use crate::esc::{
    compat, Detail, detail_in_range, found_in_seq, lemma_seq_details_in_range, seq_details,
};
use crate::features::{EsVersion, EsVersionSet, Feature, FeaturesFlag, flag_of, versions_of};
use crate::policy::{Config, TargetSupport, spec_resolve_flags};
use crate::smap::{
    Token, token_ok, best_token_spec, lemma_best_token_props, find_token, parse_doc,
    parse_doc_spec, decode_mappings, decode_mappings_spec,
};

verus! {

/// The kinds of failure the library reports.
#[derive(Clone, Copy, PartialEq, Eq, Structural, Debug)]
pub enum ErrorKind {
    /// The input code could not be parsed.
    ParseError,
    /// The target query is invalid.
    ConfigError,
    /// An internal invariant was violated.
    InternalError,
    /// The source-map file is missing or malformed.
    SourceMapError,
}

/// One reported failure.
#[derive(Clone, Debug)]
pub struct Error {
    pub kind: ErrorKind,
    pub message: String,
}

/// The inputs of a detection run.
#[derive(Clone, Debug)]
pub struct ParseOptions {
    pub target: Option<String>,
    pub browserslist: String,
    pub filename: String,
    pub code: String,
}

/// What a detection run returns: the features found, the editions they
/// imply, and the occurrence records in traversal order.
#[derive(Clone, Debug)]
pub struct DetectResult {
    pub features: FeaturesFlag,
    pub es_versions: EsVersionSet,
    pub details: Vec<Detail>,
}

/// The ceiling edition an explicit target name selects; unknown or
/// absent names select the latest edition.
pub open spec fn spec_parse_target(t: Option<Seq<char>>) -> EsVersion {
    match t {
        None => EsVersion::EsNext,
        Some(s) => {
            if s == "es2022"@ {
                EsVersion::Es2022
            } else if s == "es2021"@ {
                EsVersion::Es2021
            } else if s == "es2020"@ {
                EsVersion::Es2020
            } else if s == "es2019"@ {
                EsVersion::Es2019
            } else if s == "es2018"@ {
                EsVersion::Es2018
            } else if s == "es2017"@ {
                EsVersion::Es2017
            } else if s == "es2016"@ {
                EsVersion::Es2016
            } else if s == "es2015"@ {
                EsVersion::Es2015
            } else if s == "es5"@ {
                EsVersion::Es5
            } else if s == "es3"@ {
                EsVersion::Es3
            } else {
                EsVersion::EsNext
            }
        },
    }
}

/// Resolves the explicit target name to its ceiling edition.
pub fn parse_target(target: &Option<String>) -> (r: EsVersion)
    ensures
        r == spec_parse_target(
            match target {
                Some(s) => Some(s@),
                None => None,
            },
        ),
{
    match target {
        None => EsVersion::EsNext,
        Some(s) => {
            if *s == String::from_str("es2022") {
                EsVersion::Es2022
            } else if *s == String::from_str("es2021") {
                EsVersion::Es2021
            } else if *s == String::from_str("es2020") {
                EsVersion::Es2020
            } else if *s == String::from_str("es2019") {
                EsVersion::Es2019
            } else if *s == String::from_str("es2018") {
                EsVersion::Es2018
            } else if *s == String::from_str("es2017") {
                EsVersion::Es2017
            } else if *s == String::from_str("es2016") {
                EsVersion::Es2016
            } else if *s == String::from_str("es2015") {
                EsVersion::Es2015
            } else if *s == String::from_str("es5") {
                EsVersion::Es5
            } else if *s == String::from_str("es3") {
                EsVersion::Es3
            } else {
                EsVersion::EsNext
            }
        },
    }
}

/// The UTF-8 bytes of the input code; tree spans index into them.
pub open spec fn code_bytes(options: ParseOptions) -> Seq<u8> {
    vstd::utf8::encode_utf8(options.code@)
}

/// The enabled-feature flags a detection run resolves: the plain policy
/// inputs, the given target support and the explicit ceiling.
#[verifier::opaque]
pub open spec fn detect_flags(options: ParseOptions, support: TargetSupport) -> FeaturesFlag {
    spec_resolve_flags(
        Config::spec_base(),
        support,
        spec_parse_target(
            match options.target {
                Some(s) => Some(s@),
                None => None,
            },
        ),
    )
}

/// Everything a successful detection run returns, pinned down: each
/// feature is found exactly when it is enabled and occurs in the tree;
/// the implied editions mirror the found features; the occurrence
/// records are those of the traversal, in order.
pub open spec fn detect_post(
    options: ParseOptions,
    support: TargetSupport,
    program: Program,
    r: DetectResult,
) -> bool {
    detect_run_post(detect_flags(options, support), code_bytes(options), program, r)
}

/// The traversal half of a detection run, on plain inputs: resolved
/// flags from the base policy, then one walk.
fn detect_core(program: &Program, bytes: Vec<u8>, es_version: EsVersion, support: &TargetSupport)
    -> (r: DetectResult)
    requires
        bytes@.len() < 0x4000_0000,
        wf_program(*program, bytes@),
    ensures
        forall|f: Feature| #![trigger flag_of(r.features, f)]
            flag_of(r.features, f) == (flag_of(
                spec_resolve_flags(Config::spec_base(), *support, es_version),
                f,
            ) && found_in_seq(f, program.body@)),
        r.es_versions == versions_of(r.features),
        r.details.deep_view() == seq_details(
            program.body@,
            spec_resolve_flags(Config::spec_base(), *support, es_version),
            bytes@,
        ),
{
    let ghost gbytes = bytes@;
    let c = Config::base();
    let mut esc = compat(es_version, bytes, &c, support);
    esc.visit_program(program);
    let r = DetectResult {
        features: esc.features,
        es_versions: esc.es_versions,
        details: esc.details,
    };
    proof {
        assert(r.details.deep_view() =~= seq_details(
            program.body@,
            spec_resolve_flags(Config::spec_base(), *support, es_version),
            gbytes,
        ));
    }
    r
}

/// Detects the syntax features of an already-parsed program. The tree's
/// spans must index the UTF-8 bytes of `options.code`; a tree that does
/// not, or code too large for its positions to be reported, is an
/// internal fault, never a wrong answer.
pub fn detect(options: &ParseOptions, program: &Program, support: &TargetSupport) -> (r: Result<
    DetectResult,
    Error,
>)
    ensures
        (r is Ok) == (code_bytes(*options).len() < 0x4000_0000 && wf_program(
            *program,
            code_bytes(*options),
        )),
        r is Ok ==> detect_post(*options, *support, *program, r->Ok_0),
        r is Err ==> r->Err_0.kind is InternalError,
{
    let bytes = options.code.as_str().as_bytes_vec();
    proof {
        assert(bytes@ == code_bytes(*options));
    }
    if !(bytes.len() < 0x4000_0000) {
        return Err(
            Error {
                kind: ErrorKind::InternalError,
                message: String::from_str("source too large for position reporting"),
            },
        );
    }
    if !check_wf_program(program, &bytes) {
        return Err(
            Error {
                kind: ErrorKind::InternalError,
                message: String::from_str("position outside known source"),
            },
        );
    }
    let es_version = parse_target(&options.target);
    let r = detect_core(program, bytes, es_version, support);
    proof {
        reveal(detect_flags);
        assert(detect_flags(*options, *support) == spec_resolve_flags(
            Config::spec_base(),
            *support,
            es_version,
        ));
    }
    Ok(r)
}

/// What a detection run returns for given resolved flags and source
/// bytes; [`detect_post`] is this relation at the run's own flags and
/// bytes.
pub open spec fn detect_run_post(
    flags: FeaturesFlag,
    code: Seq<u8>,
    program: Program,
    r: DetectResult,
) -> bool {
    &&& forall|f: Feature| #![trigger flag_of(r.features, f)]
        flag_of(r.features, f) == (flag_of(flags, f) && found_in_seq(f, program.body@))
    &&& r.es_versions == versions_of(r.features)
    &&& r.details.deep_view() == seq_details(program.body@, flags, code)
}

/// Running detection twice with the same resolved flags and code on the
/// same tree yields the same found features and the same occurrence
/// records; with [`crate::features::lemma_versions_agree`] the implied
/// editions agree too, so a run is a pure function of its inputs.
#[verifier::rlimit(100)]
#[verifier::spinoff_prover]
pub proof fn lemma_detect_idempotent(
    flags: FeaturesFlag,
    code: Seq<u8>,
    program: Program,
    r1: DetectResult,
    r2: DetectResult,
)
    requires
        detect_run_post(flags, code, program, r1),
        detect_run_post(flags, code, program, r2),
    ensures
        r1.features == r2.features,
        r1.details.deep_view() == r2.details.deep_view(),
{
    crate::esc::lemma_found_deterministic(flags, program.body@, r1.features, r2.features);
    lemma_details_deterministic(r1, r2, seq_details(program.body@, flags, code));
}

/// Two detections whose occurrence records both equal the records the
/// specification assigns to the run carry the same records, in the same
/// order.
pub proof fn lemma_details_deterministic(
    r1: DetectResult,
    r2: DetectResult,
    ds: Seq<crate::esc::DetailV>,
)
    requires
        r1.details.deep_view() == ds,
        r2.details.deep_view() == ds,
    ensures
        r1.details.deep_view() == r2.details.deep_view(),
{
}

/// Round trip of a whole detection run: every occurrence record of a
/// successful run on a well-formed tree starts strictly before it ends,
/// within the input's character count, so the character slice of the
/// code at the record's offset pair is a non-empty substring of the
/// original text.
pub proof fn lemma_detect_round_trip(
    options: ParseOptions,
    support: TargetSupport,
    program: Program,
    r: DetectResult,
)
    requires
        detect_post(options, support, program, r),
        wf_program(program, code_bytes(options)),
    ensures
        forall|k: int| #![trigger r.details.deep_view()[k]]
            0 <= k < r.details.deep_view().len() ==> 0 <= r.details.deep_view()[k].s
                && r.details.deep_view()[k].s < r.details.deep_view()[k].e
                && r.details.deep_view()[k].e <= options.code@.len(),
{
    lemma_seq_details_in_range(program.body@, detect_flags(options, support), code_bytes(options));
    crate::span::lemma_char_count_encode(options.code@);
    assert forall|k: int| #![trigger r.details.deep_view()[k]]
        0 <= k < r.details.deep_view().len() implies 0 <= r.details.deep_view()[k].s
        && r.details.deep_view()[k].s < r.details.deep_view()[k].e && r.details.deep_view()[k].e
        <= options.code@.len() by {
        assert(detail_in_range(r.details.deep_view()[k], code_bytes(options)));
    }
}

/// The shapes the four single-feature queries look for.
#[derive(Clone, Copy, PartialEq, Eq, Structural, Debug)]
pub enum Shape {
    Nullish,
    OptChain,
    OptCatch,
    RestSpread,
}

/// A node of the given shape.
pub open spec fn shape_at(shape: Shape, k: NodeKind) -> bool {
    match shape {
        Shape::Nullish => k matches NodeKind::Bin { op } && op is NullishCoalescing,
        Shape::OptChain => k is OptChain,
        Shape::OptCatch => k matches NodeKind::CatchClause { has_param } && !has_param,
        Shape::RestSpread => k is RestPat || k is SpreadProp,
    }
}

/// The subtree holds a node of the given shape.
pub open spec fn shape_in(shape: Shape, n: Node) -> bool
    decreases n,
{
    shape_at(shape, n.kind) || shape_in_seq(shape, n.children@)
}

/// Some subtree in the sequence holds a node of the given shape.
pub open spec fn shape_in_seq(shape: Shape, s: Seq<Node>) -> bool
    decreases s,
{
    s.len() > 0 && (shape_in(shape, s[0]) || shape_in_seq(shape, s.drop_first()))
}

/// Executable test of [`shape_at`].
fn shape_at_exec(shape: Shape, k: &NodeKind) -> (r: bool)
    ensures
        r == shape_at(shape, *k),
{
    match shape {
        Shape::Nullish => matches!(
            k,
            NodeKind::Bin { op: crate::ast::BinOpKind::NullishCoalescing },
        ),
        Shape::OptChain => matches!(k, NodeKind::OptChain),
        Shape::OptCatch => matches!(k, NodeKind::CatchClause { has_param: false }),
        Shape::RestSpread => matches!(k, NodeKind::RestPat | NodeKind::SpreadProp),
    }
}

/// Executable test of [`shape_in`].
fn shape_in_node(shape: Shape, n: &Node) -> (r: bool)
    ensures
        r == shape_in(shape, *n),
    decreases *n, 1int,
{
    if shape_at_exec(shape, &n.kind) {
        true
    } else {
        shape_in_nodes(shape, &n.children)
    }
}

/// The shape search over a sequence is existence of an occurrence.
proof fn lemma_shape_in_seq_exists(shape: Shape, s: Seq<Node>)
    ensures
        shape_in_seq(shape, s) <==> exists|i: int|
            0 <= i < s.len() && shape_in(shape, #[trigger] s[i]),
    decreases s,
{
    if s.len() > 0 {
        lemma_shape_in_seq_exists(shape, s.drop_first());
        if shape_in_seq(shape, s) && !shape_in(shape, s[0]) {
            let i = choose|i: int|
                0 <= i < s.drop_first().len() && shape_in(shape, #[trigger] s.drop_first()[i]);
            assert(s.drop_first()[i] == s[i + 1]);
            assert(shape_in(shape, s[i + 1]));
        }
        if exists|i: int| 0 <= i < s.len() && shape_in(shape, #[trigger] s[i]) {
            let i = choose|i: int| 0 <= i < s.len() && shape_in(shape, #[trigger] s[i]);
            if i > 0 {
                assert(s.drop_first()[i - 1] == s[i]);
            }
        }
    }
}

/// Executable test of [`shape_in_seq`].
fn shape_in_nodes(shape: Shape, nodes: &Vec<Node>) -> (r: bool)
    ensures
        r == shape_in_seq(shape, nodes@),
    decreases *nodes, 0int,
{
    let mut k: usize = 0;
    while k < nodes.len()
        invariant
            0 <= k <= nodes@.len(),
            forall|i: int| 0 <= i < k ==> !shape_in(shape, #[trigger] nodes@[i]),
        decreases nodes@.len() - k,
    {
        proof {
            assert(decreases_to!(nodes@ => nodes@[k as int]));
        }
        if shape_in_node(shape, &nodes[k]) {
            proof {
                lemma_shape_in_seq_exists(shape, nodes@);
            }
            return true;
        }
        k = k + 1;
    }
    proof {
        lemma_shape_in_seq_exists(shape, nodes@);
    }
    false
}

/// Does the program use the nullish-coalescing operator?
pub fn nullish_coalescing(program: &Program) -> (r: bool)
    ensures
        r == shape_in_seq(Shape::Nullish, program.body@),
{
    shape_in_nodes(Shape::Nullish, &program.body)
}

/// Does the program use a rest pattern or an object spread property?
pub fn object_rest_spread(program: &Program) -> (r: bool)
    ensures
        r == shape_in_seq(Shape::RestSpread, program.body@),
{
    shape_in_nodes(Shape::RestSpread, &program.body)
}

/// Does the program use a catch clause without a binding?
pub fn optional_catch_binding(program: &Program) -> (r: bool)
    ensures
        r == shape_in_seq(Shape::OptCatch, program.body@),
{
    shape_in_nodes(Shape::OptCatch, &program.body)
}

/// Does the program use optional chaining?
pub fn optional_chaining(program: &Program) -> (r: bool)
    ensures
        r == shape_in_seq(Shape::OptChain, program.body@),
{
    shape_in_nodes(Shape::OptChain, &program.body)
}


/// The inputs of a reverse lookup: the source-map file and the
/// generated positions of prior occurrence records.
#[derive(Clone, Debug)]
pub struct LookupOptions {
    pub filename: String,
    pub details: Vec<Detail>,
}

/// One resolved original position pair and the source it belongs to.
#[derive(Clone, Debug)]
pub struct LookupResult {
    pub ls: Option<crate::esc::Line>,
    pub le: Option<crate::esc::Line>,
    pub source: Option<String>,
}

/// The mathematical value of a [`LookupResult`].
#[verifier::ext_equal]
pub struct LookupResultV {
    pub ls: Option<(int, int)>,
    pub le: Option<(int, int)>,
    pub source: Option<Seq<char>>,
}

impl View for LookupResult {
    type V = LookupResultV;

    open spec fn view(&self) -> LookupResultV {
        LookupResultV {
            ls: match self.ls {
                Some(l) => Some((l.l as int, l.c as int)),
                None => None,
            },
            le: match self.le {
                Some(l) => Some((l.l as int, l.c as int)),
                None => None,
            },
            source: match self.source {
                Some(ref s) => Some(s@),
                None => None,
            },
        }
    }
}

impl DeepView for LookupResult {
    type V = LookupResultV;

    open spec fn deep_view(&self) -> LookupResultV {
        self.view()
    }
}

/// The best token for one generated position; negative coordinates
/// never match.
pub open spec fn pos_lookup(tokens: Seq<Token>, l: int, c: int) -> Option<Token> {
    if l < 0 || c < 0 {
        None
    } else {
        match best_token_spec(tokens, l, c) {
            None => None,
            Some(i) => Some(tokens[i]),
        }
    }
}

/// The original position a found token stands for; a token without
/// source information yields none.
pub open spec fn tok_pos(t: Option<Token>) -> Option<(int, int)> {
    match t {
        Some(tok) => if tok.has_src {
            Some((tok.src_line as int, tok.src_col as int))
        } else {
            None
        },
        None => None,
    }
}

/// Carries the last successfully resolved source name forward: a token
/// that resolves its own source replaces the carry, everything else
/// keeps it.
pub open spec fn carry_update(
    sources: Seq<Seq<char>>,
    carry: Option<Seq<char>>,
    t: Option<Token>,
) -> Option<Seq<char>> {
    match t {
        Some(tok) => if tok.has_src && tok.src_id < sources.len() {
            Some(sources[tok.src_id as int])
        } else {
            carry
        },
        None => carry,
    }
}

/// The carried source name after the first `i + 1` occurrence pairs.
pub open spec fn carry_at(
    tokens: Seq<Token>,
    sources: Seq<Seq<char>>,
    dets: Seq<crate::esc::DetailV>,
    i: int,
) -> Option<Seq<char>>
    decreases i + 1,
{
    if i < 0 {
        None
    } else {
        let prev = carry_at(tokens, sources, dets, i - 1);
        let c1 = carry_update(sources, prev, pos_lookup(tokens, dets[i].ls_l, dets[i].ls_c));
        carry_update(sources, c1, pos_lookup(tokens, dets[i].le_l, dets[i].le_c))
    }
}

/// What the whole batch returns: one result per occurrence pair, in
/// order; the positions come from same-line best-token lookups and the
/// source from the carried name.
pub open spec fn lookup_post(
    tokens: Seq<Token>,
    sources: Seq<Seq<char>>,
    dets: Seq<crate::esc::DetailV>,
    rs: Seq<LookupResultV>,
) -> bool {
    &&& rs.len() == dets.len()
    &&& forall|i: int| #![trigger rs[i]]
        0 <= i < dets.len() ==> {
            &&& rs[i].ls == tok_pos(pos_lookup(tokens, dets[i].ls_l, dets[i].ls_c))
            &&& rs[i].le == tok_pos(pos_lookup(tokens, dets[i].le_l, dets[i].le_c))
            &&& rs[i].source == carry_at(tokens, sources, dets, i)
        }
}

/// Relies on String::push: appends exactly one character.
#[verifier::external_body]
fn push_char(s: &mut String, c: char)
    ensures
        final(s)@ == old(s)@.push(c),
{
    s.push(c);
}

/// Builds a string from its characters.
fn chars_to_string(v: &Vec<char>) -> (r: String)
    ensures
        r@ == v@,
{
    let mut r = String::new();
    let mut k: usize = 0;
    while k < v.len()
        invariant
            0 <= k <= v@.len(),
            r@ == v@.take(k as int),
        decreases v@.len() - k,
    {
        push_char(&mut r, v[k]);
        proof {
            assert(v@.take(k as int).push(v@[k as int]) =~= v@.take(k as int + 1));
        }
        k = k + 1;
    }
    proof {
        assert(v@.take(v@.len() as int) =~= v@);
    }
    r
}

/// Collects the characters of a string slice.
fn str_to_chars(s: &str) -> (r: Vec<char>)
    ensures
        r@ == s@,
{
    let n = s.unicode_len();
    let mut v: Vec<char> = Vec::new();
    let mut k: usize = 0;
    while k < n
        invariant
            0 <= k <= n,
            n == s@.len(),
            v@ =~= s@.take(k as int),
        decreases n - k,
    {
        v.push(s.get_char(k));
        proof {
            assert(s@.take(k as int).push(s@[k as int]) =~= s@.take(k as int + 1));
        }
        k = k + 1;
    }
    proof {
        assert(s@.take(s@.len() as int) =~= s@);
    }
    v
}

/// All tokens of the sequence have fields that fit the reported type.
pub open spec fn tokens_ok(tokens: Seq<Token>) -> bool {
    forall|m: int| 0 <= m < tokens.len() ==> token_ok(#[trigger] tokens[m])
}

/// Resolves one generated position against the tokens.
fn lookup_pos(tokens: &Vec<Token>, l: i32, c: i32) -> (r: Option<usize>)
    requires
        tokens_ok(tokens@),
    ensures
        match pos_lookup(tokens@, l as int, c as int) {
            None => r is None,
            Some(tok) => r is Some && r->0 < tokens@.len() && tokens@[r->0 as int] == tok,
        },
{
    if l < 0 || c < 0 {
        return None;
    }
    proof {
        lemma_best_token_props(tokens@, l as int, c as int);
    }
    find_token(tokens, l as u32, c as u32)
}

/// Resolves a batch of generated positions against a source map given
/// as raw file content. The whole batch fails when the document or its
/// mapping payload is malformed; otherwise every pair gets its result,
/// in order, with the last resolved source name carried across pairs.
pub fn lookup(content: &str, details: &Vec<Detail>) -> (r: Result<Vec<LookupResult>, Error>)
    ensures
        r is Ok ==> ({
            &&& parse_doc_spec(content@) is Some
            &&& ({
                let (m, sources) = parse_doc_spec(content@)->0;
                decode_mappings_spec(m, sources.len() as int) is Some && lookup_post(
                    decode_mappings_spec(m, sources.len() as int)->0,
                    sources,
                    details.deep_view(),
                    r->Ok_0.deep_view(),
                )
            })
        }),
        r is Err ==> r->Err_0.kind is SourceMapError,
        content@.len() + 16 <= usize::MAX && parse_doc_spec(content@) is Some && ({
            let (m, sources) = parse_doc_spec(content@)->0;
            m.len() + 16 <= usize::MAX && decode_mappings_spec(m, sources.len() as int) is Some
        }) ==> r is Ok,
{
    let chars = str_to_chars(content);
    if !(chars.len() <= usize::MAX - 16) {
        return Err(
            Error {
                kind: ErrorKind::SourceMapError,
                message: String::from_str("source map too large"),
            },
        );
    }
    let (mappings, source_lists) = match parse_doc(&chars) {
        Some(p) => p,
        None => {
            return Err(
                Error {
                    kind: ErrorKind::SourceMapError,
                    message: String::from_str("malformed source map document"),
                },
            );
        },
    };
    if !(mappings.len() <= usize::MAX - 16) {
        return Err(
            Error {
                kind: ErrorKind::SourceMapError,
                message: String::from_str("malformed mapping payload"),
            },
        );
    }
    let tokens = match decode_mappings(&mappings, source_lists.len()) {
        Some(t) => t,
        None => {
            return Err(
                Error {
                    kind: ErrorKind::SourceMapError,
                    message: String::from_str("malformed mapping payload"),
                },
            );
        },
    };
    let ghost gsources = source_lists.deep_view();
    let mut sources: Vec<String> = Vec::new();
    let mut k: usize = 0;
    while k < source_lists.len()
        invariant
            0 <= k <= source_lists@.len(),
            gsources == source_lists.deep_view(),
            sources@.len() == k,
            forall|m: int| 0 <= m < k ==> (#[trigger] sources@[m])@ == gsources[m],
        decreases source_lists@.len() - k,
    {
        let name = chars_to_string(&source_lists[k]);
        sources.push(name);
        k = k + 1;
    }
    let ghost dets = details.deep_view();
    let mut rs: Vec<LookupResult> = Vec::new();
    let mut carry: Option<String> = None;
    let mut i: usize = 0;
    while i < details.len()
        invariant
            0 <= i <= details@.len(),
            dets == details.deep_view(),
            dets.len() == details@.len(),
            tokens_ok(tokens@),
            gsources.len() == sources@.len(),
            forall|m: int| 0 <= m < sources@.len() ==> (#[trigger] sources@[m])@ == gsources[m],
            rs@.len() == i,
            forall|m: int| #![trigger rs@[m]]
                0 <= m < i ==> {
                    &&& rs@[m]@.ls == tok_pos(pos_lookup(tokens@, dets[m].ls_l, dets[m].ls_c))
                    &&& rs@[m]@.le == tok_pos(pos_lookup(tokens@, dets[m].le_l, dets[m].le_c))
                    &&& rs@[m]@.source == carry_at(tokens@, gsources, dets, m)
                },
            match carry {
                None => carry_at(tokens@, gsources, dets, i as int - 1) is None,
                Some(ref s) => carry_at(tokens@, gsources, dets, i as int - 1) == Some(s@),
            },
        decreases details@.len() - i,
    {
        let d = &details[i];
        proof {
            assert(details@[i as int].deep_view() == dets[i as int]);
        }
        let t1 = lookup_pos(&tokens, d.ls.l, d.ls.c);
        let ls: Option<crate::esc::Line>;
        match t1 {
            Some(ix) => {
                let tok = tokens[ix];
                if tok.has_src {
                    ls = Some(crate::esc::Line { l: tok.src_line as i32, c: tok.src_col as i32 });
                    if (tok.src_id as usize) < sources.len() {
                        carry = Some(sources[tok.src_id as usize].clone());
                    }
                } else {
                    ls = None;
                }
            },
            None => {
                ls = None;
            },
        }
        let t2 = lookup_pos(&tokens, d.le.l, d.le.c);
        let le: Option<crate::esc::Line>;
        match t2 {
            Some(ix) => {
                let tok = tokens[ix];
                if tok.has_src {
                    le = Some(crate::esc::Line { l: tok.src_line as i32, c: tok.src_col as i32 });
                    if (tok.src_id as usize) < sources.len() {
                        carry = Some(sources[tok.src_id as usize].clone());
                    }
                } else {
                    le = None;
                }
            },
            None => {
                le = None;
            },
        }
        let source: Option<String> = match &carry {
            None => None,
            Some(s) => Some(s.clone()),
        };
        rs.push(LookupResult { ls, le, source });
        i = i + 1;
    }
    Ok(rs)
}


/// A generated position on a line that no segment covers resolves to
/// nothing: the lookup of such a position stays absent.
pub proof fn lemma_uncovered_line(tokens: Seq<Token>, line: int, col: int)
    requires
        forall|i: int| 0 <= i < tokens.len() ==> (#[trigger] tokens[i]).dst_line != line,
    ensures
        pos_lookup(tokens, line, col) is None,
        tok_pos(pos_lookup(tokens, line, col)) is None,
{
    lemma_best_token_props(tokens, line, col);
    if line >= 0 && col >= 0 {
        if best_token_spec(tokens, line, col) is Some {
            let b = best_token_spec(tokens, line, col)->0;
            assert(tokens[b].dst_line != line);
            assert(false);
        }
    }
}

} // verus!
