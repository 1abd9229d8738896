//! Schema descriptors and the assembly of their stage lists into a pipeline.
use vstd::prelude::*;
use vstd::string::*;
use crate::error::LingCodeError;
use crate::text::chars_eq;
use crate::text::chars_of;

verus! {

/// Schema metadata.
#[derive(Debug, Clone)]
pub struct SchemaInfo {
    pub schema_id: String,
    pub name: String,
    pub version: Option<String>,
    pub author: Option<String>,
    pub description: Option<String>,
    pub dependencies: Vec<String>,
}

/// A feature switch.
#[derive(Debug, Clone)]
pub struct Switch {
    pub name: String,
    pub reset: u8,
    pub states: Vec<String>,
}

/// Stage lists of a schema, each in declared order.
#[derive(Debug, Clone)]
pub struct Engine {
    pub processors: Vec<String>,
    pub segmentors: Vec<String>,
    pub translators: Vec<String>,
    pub filters: Vec<String>,
}

/// Speller settings.
#[derive(Debug, Clone)]
pub struct Speller {
    pub alphabet: Option<String>,
    pub delimiter: Option<String>,
    pub algebra: Vec<String>,
}

/// Translator settings.
#[derive(Debug, Clone)]
pub struct Translator {
    pub dictionary: Option<String>,
    pub prism: Option<String>,
}

/// A parsed schema.
#[derive(Debug, Clone)]
pub struct Schema {
    pub schema: SchemaInfo,
    pub switches: Vec<Switch>,
    pub engine: Engine,
    pub speller: Option<Speller>,
    pub translator: Option<Translator>,
}

impl Default for Engine {
    fn default() -> (r: Engine)
        ensures
            r.processors@.len() == 0,
            r.segmentors@.len() == 0,
            r.translators@.len() == 0,
            r.filters@.len() == 0,
    {
        Engine { processors: Vec::new(), segmentors: Vec::new(), translators: Vec::new(), filters: Vec::new() }
    }
}

/// Role of a stage in the pipeline.
#[derive(Debug, Clone, Copy, PartialEq, Eq, Structural)]
pub enum StageKind {
    Processor,
    Segmentor,
    Translator,
    Filter,
}

/// A resolved stage: its role and its entry in the registry.
#[derive(Debug, Clone, Copy, PartialEq, Eq, Structural)]
pub struct StageHandle {
    pub kind: StageKind,
    pub index: usize,
}

/// The stage implementations available, each under a name and a role.
#[derive(Debug, Clone)]
pub struct StageRegistry {
    pub entries: Vec<(StageKind, Vec<char>)>,
}

/// The stages of an assembled schema, in declared order within each role.
#[derive(Debug, Clone)]
pub struct Pipeline {
    pub processors: Vec<StageHandle>,
    pub segmentors: Vec<StageHandle>,
    pub translators: Vec<StageHandle>,
    pub filters: Vec<StageHandle>,
}

/// `name` is registered for the role `kind`.
pub open spec fn registered(reg: Seq<(StageKind, Vec<char>)>, kind: StageKind, name: Seq<char>) -> bool {
    exists|i: int| 0 <= i < reg.len() && reg[i].0 == kind && #[trigger] reg[i].1@ == name
}

/// `h` is the registry entry of `name` in the role `kind`.
pub open spec fn resolves(reg: Seq<(StageKind, Vec<char>)>, h: StageHandle, kind: StageKind, name: Seq<char>) -> bool {
    h.kind == kind && h.index < reg.len() && reg[h.index as int].0 == kind && reg[h.index as int].1@ == name
}

/// Every name of the list is registered for `kind`.
pub open spec fn all_registered(reg: Seq<(StageKind, Vec<char>)>, kind: StageKind, names: Seq<String>) -> bool {
    forall|k: int| 0 <= k < names.len() ==> registered(reg, kind, #[trigger] names[k]@)
}

/// `hs` resolves the list of names one by one.
pub open spec fn resolves_all(reg: Seq<(StageKind, Vec<char>)>, hs: Seq<StageHandle>, kind: StageKind, names: Seq<String>) -> bool {
    hs.len() == names.len() && forall|k: int| 0 <= k < names.len() ==> resolves(reg, #[trigger] hs[k], kind, names[k]@)
}

/// Every list of the engine is registered in its role.
pub open spec fn engine_registered(reg: Seq<(StageKind, Vec<char>)>, e: Engine) -> bool {
    &&& all_registered(reg, StageKind::Processor, e.processors@)
    &&& all_registered(reg, StageKind::Segmentor, e.segmentors@)
    &&& all_registered(reg, StageKind::Translator, e.translators@)
    &&& all_registered(reg, StageKind::Filter, e.filters@)
}

/// `m` is the name of a stage that the engine declares and the registry lacks.
pub open spec fn names_missing_stage(reg: Seq<(StageKind, Vec<char>)>, e: Engine, m: Seq<char>) -> bool {
    ||| (exists|k: int| 0 <= k < e.processors@.len() && #[trigger] e.processors@[k]@ == m && !registered(reg, StageKind::Processor, m))
    ||| (exists|k: int| 0 <= k < e.segmentors@.len() && #[trigger] e.segmentors@[k]@ == m && !registered(reg, StageKind::Segmentor, m))
    ||| (exists|k: int| 0 <= k < e.translators@.len() && #[trigger] e.translators@[k]@ == m && !registered(reg, StageKind::Translator, m))
    ||| (exists|k: int| 0 <= k < e.filters@.len() && #[trigger] e.filters@[k]@ == m && !registered(reg, StageKind::Filter, m))
}

impl StageRegistry {
    /// A registry with no stage.
    pub fn new() -> (r: Self)
        ensures
            r.entries@.len() == 0,
    {
        StageRegistry { entries: Vec::new() }
    }

    /// Registers a stage name for a role.
    pub fn register(&mut self, kind: StageKind, name: &str)
        ensures
            final(self).entries@.len() == old(self).entries@.len() + 1,
            final(self).entries@.drop_last() == old(self).entries@,
            final(self).entries@.last().0 == kind,
            final(self).entries@.last().1@ == name@,
    {
        self.entries.push((kind, chars_of(name)));
    }

    /// The registry entry of `name` in the role `kind`, if there is one.
    pub fn find(&self, kind: StageKind, name: &str) -> (r: Option<usize>)
        ensures
            r is Some ==> resolves(self.entries@, StageHandle { kind, index: r->0 }, kind, name@),
            r is None <==> !registered(self.entries@, kind, name@),
    {
        let n = chars_of(name);
        let mut i: usize = 0;
        while i < self.entries.len()
            invariant
                i <= self.entries.len(),
                n@ == name@,
                forall|j: int| 0 <= j < i ==> !(self.entries@[j].0 == kind && #[trigger] self.entries@[j].1@ == name@),
            decreases self.entries.len() - i,
        {
            if self.entries[i].0 == kind && chars_eq(&self.entries[i].1, &n) {
                return Some(i);
            }
            i = i + 1;
        }
        None
    }

    /// Resolves a list of names in one role, or names the first unknown one.
    pub fn resolve_list(&self, kind: StageKind, names: &Vec<String>) -> (r: Result<Vec<StageHandle>, String>)
        ensures
            r is Ok <==> all_registered(self.entries@, kind, names@),
            r is Ok ==> resolves_all(self.entries@, r->Ok_0@, kind, names@),
            r is Err ==> exists|k: int| 0 <= k < names@.len() && #[trigger] names@[k]@ == r->Err_0@ && !registered(self.entries@, kind, r->Err_0@),
    {
        let mut out: Vec<StageHandle> = Vec::new();
        let mut i: usize = 0;
        while i < names.len()
            invariant
                i <= names.len(),
                out@.len() == i,
                forall|k: int| 0 <= k < i ==> resolves(self.entries@, #[trigger] out@[k], kind, names@[k]@),
            decreases names.len() - i,
        {
            match self.find(kind, names[i].as_str()) {
                Some(idx) => {
                    out.push(StageHandle { kind, index: idx });
                },
                None => {
                    assert(!registered(self.entries@, kind, names@[i as int]@));
                    return Err(names[i].clone());
                },
            }
            i = i + 1;
        }
        proof {
            assert forall|k: int| 0 <= k < names@.len() implies registered(self.entries@, kind, #[trigger] names@[k]@) by {
                assert(resolves(self.entries@, out@[k], kind, names@[k]@));
                let idx = out@[k].index as int;
                assert(self.entries@[idx].1@ == names@[k]@);
            }
        }
        Ok(out)
    }

    /// Resolves every stage list of the engine. A name that no entry of its
    /// role provides fails the whole assembly with `SchemaError` naming it.
    pub fn assemble(&self, engine: &Engine) -> (r: Result<Pipeline, LingCodeError>)
        ensures
            r is Ok <==> engine_registered(self.entries@, *engine),
            r is Ok ==> {
                let p = r->Ok_0;
                &&& resolves_all(self.entries@, p.processors@, StageKind::Processor, engine.processors@)
                &&& resolves_all(self.entries@, p.segmentors@, StageKind::Segmentor, engine.segmentors@)
                &&& resolves_all(self.entries@, p.translators@, StageKind::Translator, engine.translators@)
                &&& resolves_all(self.entries@, p.filters@, StageKind::Filter, engine.filters@)
            },
            r is Err ==> r->Err_0 is SchemaError && names_missing_stage(self.entries@, *engine, r->Err_0->SchemaError_0@),
    {
        let processors = match self.resolve_list(StageKind::Processor, &engine.processors) {
            Ok(v) => v,
            Err(name) => {
                return Err(LingCodeError::SchemaError(name));
            },
        };
        let segmentors = match self.resolve_list(StageKind::Segmentor, &engine.segmentors) {
            Ok(v) => v,
            Err(name) => {
                return Err(LingCodeError::SchemaError(name));
            },
        };
        let translators = match self.resolve_list(StageKind::Translator, &engine.translators) {
            Ok(v) => v,
            Err(name) => {
                return Err(LingCodeError::SchemaError(name));
            },
        };
        let filters = match self.resolve_list(StageKind::Filter, &engine.filters) {
            Ok(v) => v,
            Err(name) => {
                return Err(LingCodeError::SchemaError(name));
            },
        };
        Ok(Pipeline { processors, segmentors, translators, filters })
    }

    /// The stages that this library provides, under their customary names.
    pub fn standard() -> (r: Self)
        ensures
            r.entries@.len() == 29,
    {
        let mut r = StageRegistry::new();
        r.register(StageKind::Processor, "ascii_composer");
        r.register(StageKind::Processor, "recognizer");
        r.register(StageKind::Processor, "key_binder");
        r.register(StageKind::Processor, "speller");
        r.register(StageKind::Processor, "punctuator");
        r.register(StageKind::Processor, "selector");
        r.register(StageKind::Processor, "navigator");
        r.register(StageKind::Processor, "express_editor");
        r.register(StageKind::Processor, "fluid_editor");
        r.register(StageKind::Segmentor, "ascii_segmentor");
        r.register(StageKind::Segmentor, "matcher");
        r.register(StageKind::Segmentor, "abc_segmentor");
        r.register(StageKind::Segmentor, "punct_segmentor");
        r.register(StageKind::Segmentor, "fallback_segmentor");
        r.register(StageKind::Segmentor, "affix_segmentor");
        r.register(StageKind::Translator, "echo_translator");
        r.register(StageKind::Translator, "punct_translator");
        r.register(StageKind::Translator, "script_translator");
        r.register(StageKind::Translator, "table_translator");
        r.register(StageKind::Translator, "reverse_lookup_translator");
        r.register(StageKind::Translator, "schema_list_translator");
        r.register(StageKind::Translator, "switch_translator");
        r.register(StageKind::Filter, "simplifier");
        r.register(StageKind::Filter, "uniquifier");
        r.register(StageKind::Filter, "charset_filter");
        r.register(StageKind::Filter, "cjk_minifier");
        r.register(StageKind::Filter, "single_char_filter");
        r.register(StageKind::Filter, "reverse_lookup_filter");
        r.register(StageKind::Filter, "fuzzy_filter");
        r
    }
}

} // verus!
