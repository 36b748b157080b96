mod draw_indexed_parameter;
mod draw_parameter;
mod set_bind_group_parameter;
mod set_index_buffer_parameter;
mod set_render_pipeline_parameter;
mod set_vertex_buffer_parameter;

pub use draw_indexed_parameter::DrawIndexedParameter;
pub use draw_parameter::DrawParameter;
pub use set_bind_group_parameter::SetBindGroupParameter;
pub use set_index_buffer_parameter::SetIndexBufferParameter;
pub use set_render_pipeline_parameter::SetRenderPipelineParameter;
pub use set_vertex_buffer_parameter::SetVertexBufferParameter;
