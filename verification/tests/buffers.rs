use web_sys::WebGlRenderingContext as Context;
use webgl_rc::data_buffer::{ArrayBuffer, Writable};
use webgl_rc::{BufferUsage, DeviceCall, Gl, GlError};

#[derive(Clone, Copy)]
struct Vertex {
    position: (f32, f32),
    color: (f32, f32, f32),
}

impl Writable for Vertex {
    fn write(&self, output: &mut Vec<u32>) {
        output.push(self.position.0.to_bits());
        output.push(self.position.1.to_bits());
        output.push(self.color.0.to_bits());
        output.push(self.color.1.to_bits());
        output.push(self.color.2.to_bits());
    }

    fn stride() -> usize {
        5
    }
}

fn triangle() -> [Vertex; 3] {
    [
        Vertex { position: (0.0, 1.0), color: (1.0, 0.0, 0.0) },
        Vertex { position: (1.0, -1.0), color: (0.0, 1.0, 0.0) },
        Vertex { position: (-1.0, -1.0), color: (0.0, 0.0, 1.0) },
    ]
}

#[test]
fn buffer_of_three_items_reports_three_for_every_usage() {
    for usage in [BufferUsage::Stream, BufferUsage::Static, BufferUsage::Dynamic] {
        let mut gl = Gl::fresh();
        let buffer = ArrayBuffer::new(&mut gl, true, &triangle(), usage).unwrap();
        assert_eq!(buffer.len(&gl), 3);
    }
}

#[test]
fn buffer_creation_binds_uploads_and_unbinds() {
    let mut gl = Gl::fresh();
    let buffer = ArrayBuffer::new(&mut gl, true, &triangle(), BufferUsage::Static).unwrap();
    let commands = gl.take_calls();
    let calls: Vec<DeviceCall> = commands.iter().map(|c| c.call).collect();
    assert_eq!(
        calls,
        vec![
            DeviceCall::BindBuffer { target: Context::ARRAY_BUFFER, buffer: Some(buffer.id()) },
            DeviceCall::BufferData { target: Context::ARRAY_BUFFER, usage: Context::STATIC_DRAW },
            DeviceCall::BindBuffer { target: Context::ARRAY_BUFFER, buffer: None },
        ]
    );
    assert_eq!(commands[1].words.len(), 15);
    assert_eq!(commands[1].words[0], 0.0f32.to_bits());
    assert_eq!(commands[1].words[1], 1.0f32.to_bits());
    assert_eq!(commands[1].words[14], 1.0f32.to_bits());
    assert!(gl.take_calls().is_empty());
}

#[test]
fn buffer_creation_fails_without_a_device_buffer() {
    let mut gl = Gl::fresh();
    let result = ArrayBuffer::new(&mut gl, false, &triangle(), BufferUsage::Static);
    assert_eq!(result.err(), Some(GlError::BufferAllocationError));
    assert!(gl.take_calls().is_empty());
}
