use vstd::prelude::*;

use crate::gpu::{ExComputePipeline, ExRenderPipeline};

verus! {

/// One cached pipeline: render or compute.
pub enum Pipeline {
    RenderPipeline(wgpu::RenderPipeline),
    ComputePipeline(wgpu::ComputePipeline),
}

impl Pipeline {
    pub fn get_render_pipeline(&self) -> (r: Option<&wgpu::RenderPipeline>)
        ensures
            match r {
                Some(p) => self matches Pipeline::RenderPipeline(q) && *p == q,
                None => !(self is RenderPipeline),
            },
    {
        match self {
            Pipeline::RenderPipeline(res) => Some(res),
            _ => None,
        }
    }

    pub fn get_compute_pipeline(&self) -> (r: Option<&wgpu::ComputePipeline>)
        ensures
            match r {
                Some(p) => self matches Pipeline::ComputePipeline(q) && *p == q,
                None => !(self is ComputePipeline),
            },
    {
        match self {
            Pipeline::ComputePipeline(res) => Some(res),
            _ => None,
        }
    }
}

/// Supplies the pipeline container an execution borrows.
pub trait GetPipelineContainer {
    fn get_pipeline_container(&self) -> PipelineContainer;
}

/// The cache of pipelines a frame executes against, keyed by integer id.
pub struct PipelineContainer(pub Vec<Option<Pipeline>>);

impl PipelineContainer {
    pub fn new() -> (r: Self)
        ensures
            r.0@.len() == 0,
    {
        PipelineContainer(Vec::new())
    }

    /// Whether a render pipeline is stored under this id.
    pub open spec fn has_render_pipeline(&self, id: int) -> bool {
        0 <= id < self.0@.len() && self.0@[id] matches Some(Pipeline::RenderPipeline(_))
    }

    /// Whether a compute pipeline is stored under this id.
    pub open spec fn has_compute_pipeline(&self, id: int) -> bool {
        0 <= id < self.0@.len() && self.0@[id] matches Some(Pipeline::ComputePipeline(_))
    }

    pub fn get_render_pipeline(&self, id: usize) -> (r: Option<&wgpu::RenderPipeline>)
        ensures
            r is Some <==> self.has_render_pipeline(id as int),
            r matches Some(p) ==> self.0@[id as int] == Some(Pipeline::RenderPipeline(*p)),
    {
        if id < self.0.len() {
            match &self.0[id] {
                Some(pipeline) => pipeline.get_render_pipeline(),
                None => None,
            }
        } else {
            None
        }
    }

    pub fn get_compute_pipeline(&self, id: usize) -> (r: Option<&wgpu::ComputePipeline>)
        ensures
            r is Some <==> self.has_compute_pipeline(id as int),
            r matches Some(p) ==> self.0@[id as int] == Some(Pipeline::ComputePipeline(*p)),
    {
        if id < self.0.len() {
            match &self.0[id] {
                Some(pipeline) => pipeline.get_compute_pipeline(),
                None => None,
            }
        } else {
            None
        }
    }
}

} // verus!
