use crate::data_buffer::Writable;
use crate::texture::Texture;
use crate::types::{DataType, Single, TypeMark};
use crate::uniforms::{IntoUniform, UniformValue};
use vstd::prelude::*;

verus! {

impl Writable for Single {
    open spec fn written(&self) -> Seq<u32> {
        seq![self.0]
    }

    open spec fn spec_stride() -> usize {
        1
    }

    fn write(&self, output: &mut Vec<u32>) {
        output.push(self.0);
        proof {
            assert(output@ =~= old(output)@ + self.written());
        }
    }

    fn stride() -> usize {
        1
    }
}

impl TypeMark for Single {
    open spec fn spec_data_type() -> DataType {
        DataType::Float
    }

    fn data_type() -> DataType {
        DataType::Float
    }
}

impl IntoUniform for Single {
    open spec fn spec_into_uniform(&self) -> UniformValue {
        UniformValue::Float(self.0)
    }

    fn into_uniform(&self) -> UniformValue {
        UniformValue::Float(self.0)
    }
}

impl TypeMark for Texture {
    open spec fn spec_data_type() -> DataType {
        DataType::Sampler
    }

    fn data_type() -> DataType {
        DataType::Sampler
    }
}

impl IntoUniform for Texture {
    open spec fn spec_into_uniform(&self) -> UniformValue {
        UniformValue::Texture(self.id())
    }

    fn into_uniform(&self) -> UniformValue {
        UniformValue::Texture(self.id())
    }
}

impl TypeMark for Option<Texture> {
    open spec fn spec_data_type() -> DataType {
        DataType::Sampler
    }

    fn data_type() -> DataType {
        DataType::Sampler
    }
}

impl IntoUniform for Option<Texture> {
    open spec fn spec_into_uniform(&self) -> UniformValue {
        match self {
            Some(texture) => UniformValue::Texture(texture.id()),
            None => UniformValue::Unset,
        }
    }

    fn into_uniform(&self) -> UniformValue {
        match self {
            Some(texture) => UniformValue::Texture(texture.id()),
            None => UniformValue::Unset,
        }
    }
}

impl TypeMark for bool {
    open spec fn spec_data_type() -> DataType {
        DataType::Boolean
    }

    fn data_type() -> DataType {
        DataType::Boolean
    }
}

impl IntoUniform for bool {
    open spec fn spec_into_uniform(&self) -> UniformValue {
        UniformValue::Boolean(*self)
    }

    fn into_uniform(&self) -> UniformValue {
        UniformValue::Boolean(*self)
    }
}

impl TypeMark for [Single; 2] {
    open spec fn spec_data_type() -> DataType {
        DataType::Vec2
    }

    fn data_type() -> DataType {
        DataType::Vec2
    }
}

impl IntoUniform for [Single; 2] {
    open spec fn spec_into_uniform(&self) -> UniformValue {
        UniformValue::Vec2([self[0].0, self[1].0])
    }

    fn into_uniform(&self) -> UniformValue {
        UniformValue::Vec2([self[0].0, self[1].0])
    }
}

impl Writable for [Single; 2] {
    open spec fn written(&self) -> Seq<u32> {
        seq![self[0].0, self[1].0]
    }

    open spec fn spec_stride() -> usize {
        2
    }

    fn write(&self, output: &mut Vec<u32>) {
        output.push(self[0].0);
        output.push(self[1].0);
        proof {
            assert(output@ =~= old(output)@ + self.written());
        }
    }

    fn stride() -> usize {
        2
    }
}

impl TypeMark for (Single, Single) {
    open spec fn spec_data_type() -> DataType {
        DataType::Vec2
    }

    fn data_type() -> DataType {
        DataType::Vec2
    }
}

impl IntoUniform for (Single, Single) {
    open spec fn spec_into_uniform(&self) -> UniformValue {
        UniformValue::Vec2([self.0.0, self.1.0])
    }

    fn into_uniform(&self) -> UniformValue {
        UniformValue::Vec2([self.0.0, self.1.0])
    }
}

impl Writable for (Single, Single) {
    open spec fn written(&self) -> Seq<u32> {
        seq![self.0.0, self.1.0]
    }

    open spec fn spec_stride() -> usize {
        2
    }

    fn write(&self, output: &mut Vec<u32>) {
        output.push(self.0.0);
        output.push(self.1.0);
        proof {
            assert(output@ =~= old(output)@ + self.written());
        }
    }

    fn stride() -> usize {
        2
    }
}

impl TypeMark for [Single; 3] {
    open spec fn spec_data_type() -> DataType {
        DataType::Vec3
    }

    fn data_type() -> DataType {
        DataType::Vec3
    }
}

impl IntoUniform for [Single; 3] {
    open spec fn spec_into_uniform(&self) -> UniformValue {
        UniformValue::Vec3([self[0].0, self[1].0, self[2].0])
    }

    fn into_uniform(&self) -> UniformValue {
        UniformValue::Vec3([self[0].0, self[1].0, self[2].0])
    }
}

impl Writable for [Single; 3] {
    open spec fn written(&self) -> Seq<u32> {
        seq![self[0].0, self[1].0, self[2].0]
    }

    open spec fn spec_stride() -> usize {
        3
    }

    fn write(&self, output: &mut Vec<u32>) {
        output.push(self[0].0);
        output.push(self[1].0);
        output.push(self[2].0);
        proof {
            assert(output@ =~= old(output)@ + self.written());
        }
    }

    fn stride() -> usize {
        3
    }
}

impl TypeMark for (Single, Single, Single) {
    open spec fn spec_data_type() -> DataType {
        DataType::Vec3
    }

    fn data_type() -> DataType {
        DataType::Vec3
    }
}

impl IntoUniform for (Single, Single, Single) {
    open spec fn spec_into_uniform(&self) -> UniformValue {
        UniformValue::Vec3([self.0.0, self.1.0, self.2.0])
    }

    fn into_uniform(&self) -> UniformValue {
        UniformValue::Vec3([self.0.0, self.1.0, self.2.0])
    }
}

impl Writable for (Single, Single, Single) {
    open spec fn written(&self) -> Seq<u32> {
        seq![self.0.0, self.1.0, self.2.0]
    }

    open spec fn spec_stride() -> usize {
        3
    }

    fn write(&self, output: &mut Vec<u32>) {
        output.push(self.0.0);
        output.push(self.1.0);
        output.push(self.2.0);
        proof {
            assert(output@ =~= old(output)@ + self.written());
        }
    }

    fn stride() -> usize {
        3
    }
}

impl TypeMark for [Single; 4] {
    open spec fn spec_data_type() -> DataType {
        DataType::Vec4
    }

    fn data_type() -> DataType {
        DataType::Vec4
    }
}

impl IntoUniform for [Single; 4] {
    open spec fn spec_into_uniform(&self) -> UniformValue {
        UniformValue::Vec4([self[0].0, self[1].0, self[2].0, self[3].0])
    }

    fn into_uniform(&self) -> UniformValue {
        UniformValue::Vec4([self[0].0, self[1].0, self[2].0, self[3].0])
    }
}

impl Writable for [Single; 4] {
    open spec fn written(&self) -> Seq<u32> {
        seq![self[0].0, self[1].0, self[2].0, self[3].0]
    }

    open spec fn spec_stride() -> usize {
        4
    }

    fn write(&self, output: &mut Vec<u32>) {
        output.push(self[0].0);
        output.push(self[1].0);
        output.push(self[2].0);
        output.push(self[3].0);
        proof {
            assert(output@ =~= old(output)@ + self.written());
        }
    }

    fn stride() -> usize {
        4
    }
}

impl TypeMark for (Single, Single, Single, Single) {
    open spec fn spec_data_type() -> DataType {
        DataType::Vec4
    }

    fn data_type() -> DataType {
        DataType::Vec4
    }
}

impl IntoUniform for (Single, Single, Single, Single) {
    open spec fn spec_into_uniform(&self) -> UniformValue {
        UniformValue::Vec4([self.0.0, self.1.0, self.2.0, self.3.0])
    }

    fn into_uniform(&self) -> UniformValue {
        UniformValue::Vec4([self.0.0, self.1.0, self.2.0, self.3.0])
    }
}

impl Writable for (Single, Single, Single, Single) {
    open spec fn written(&self) -> Seq<u32> {
        seq![self.0.0, self.1.0, self.2.0, self.3.0]
    }

    open spec fn spec_stride() -> usize {
        4
    }

    fn write(&self, output: &mut Vec<u32>) {
        output.push(self.0.0);
        output.push(self.1.0);
        output.push(self.2.0);
        output.push(self.3.0);
        proof {
            assert(output@ =~= old(output)@ + self.written());
        }
    }

    fn stride() -> usize {
        4
    }
}

} // verus!
