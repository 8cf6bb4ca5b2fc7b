//! The compiled pipelines of the shader passes.

use crate::scene::ShaderPass;
use std::collections::HashMap;
use vstd::prelude::*;

verus! {

broadcast use vstd::std_specs::hash::group_hash_axioms;

/// The pipeline of every shader that was compiled, by the identifier of the shader. A pipeline is
/// named by a handle.
pub struct ShaderPassPipelines {
    pub pipelines: HashMap<u64, u64>,
}

impl View for ShaderPassPipelines {
    type V = Map<u64, u64>;

    open spec fn view(&self) -> Map<u64, u64> {
        self.pipelines@
    }
}

/// The compiled pipelines after the shader of a pass was compiled, or failed to.
pub open spec fn recorded(
    pipelines: Map<u64, u64>,
    pass: ShaderPass,
    compiled: Option<u64>,
) -> Map<u64, u64> {
    match compiled {
        Some(pipeline) => pipelines.insert(pass.shader_id, pipeline),
        None => pipelines,
    }
}

impl ShaderPassPipelines {
    /// No shader is compiled.
    pub fn new() -> (cache: Self)
        ensures
            cache@ == Map::<u64, u64>::empty(),
    {
        ShaderPassPipelines { pipelines: HashMap::new() }
    }

    /// The pipeline of a shader pass, if its shader is compiled.
    pub fn shader_pass_pipeline(&self, pass: &ShaderPass) -> (pipeline: Option<u64>)
        ensures
            pipeline == if self@.contains_key(pass.shader_id) {
                Some(self@[pass.shader_id])
            } else {
                None
            },
    {
        match self.pipelines.get(&pass.shader_id) {
            Some(pipeline) => Some(*pipeline),
            None => None,
        }
    }

    /// Takes in the outcome of compiling the shader of a pass. A shader that failed to compile is
    /// not kept: it will be compiled anew when it is next seen.
    pub fn record(&mut self, pass: &ShaderPass, compiled: Option<u64>)
        ensures
            final(self)@ == recorded(old(self)@, *pass, compiled),
    {
        match compiled {
            Some(pipeline) => {
                self.pipelines.insert(pass.shader_id, pipeline);
            },
            None => {},
        }
    }
}

/// A shader that compiled is found again under its identifier, and only under that: what was
/// compiled before stays. One that failed leaves everything as it was.
pub proof fn compiled_shaders_are_found_again(
    pipelines: Map<u64, u64>,
    pass: ShaderPass,
    pipeline: u64,
)
    ensures
        recorded(pipelines, pass, Some(pipeline)).contains_key(pass.shader_id),
        recorded(pipelines, pass, Some(pipeline))[pass.shader_id] == pipeline,
        forall|id: u64|
            id != pass.shader_id ==> #[trigger] recorded(
                pipelines,
                pass,
                Some(pipeline),
            ).contains_key(id) == pipelines.contains_key(id),
        forall|id: u64|
            id != pass.shader_id && pipelines.contains_key(id) ==> #[trigger] recorded(
                pipelines,
                pass,
                Some(pipeline),
            )[id] == pipelines[id],
        recorded(pipelines, pass, None) == pipelines,
{
}

} // verus!
