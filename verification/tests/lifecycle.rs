use web_sys::WebGlRenderingContext as Context;
use webgl_rc::{
    ArrayBuffer, BufferUsage, Command, DepthBuffer, DeviceCall, ElementsBuffer, FrameBuffer, Gl,
    GlError, ItemsBuffer, Item, Layout, DataType, Single, Texture, TextureContent, TextureFormat,
    TextureType, Writable,
};

fn calls_in(commands: &[Command]) -> Vec<DeviceCall> {
    commands.iter().map(|command| command.call).collect()
}

fn drained(gl: &mut Gl) -> Vec<DeviceCall> {
    calls_in(&gl.take_calls())
}

fn small_texture(gl: &mut Gl) -> Texture {
    Texture::new(gl, true, 2, 2, TextureType::Byte, TextureFormat::Rgba, TextureContent::Empty)
        .unwrap()
}

#[derive(Clone, Copy, Debug, PartialEq)]
struct Point {
    position: (Single, Single),
}

impl Writable for Point {
    fn write(&self, output: &mut Vec<u32>) {
        self.position.write(output);
    }

    fn stride() -> usize {
        <(Single, Single) as Writable>::stride()
    }
}

impl Item for Point {
    fn layout() -> Vec<Layout> {
        vec![Layout { name: "a_position", data_type: DataType::Vec2 }]
    }
}

#[test]
fn two_buffers_of_the_same_contents_are_two_objects() {
    let mut gl = Gl::fresh();
    let items = [Single(1), Single(2)];
    let first = ArrayBuffer::new(&mut gl, true, &items, BufferUsage::Static).unwrap();
    let second = ArrayBuffer::new(&mut gl, true, &items, BufferUsage::Static).unwrap();
    assert_ne!(first, second);
    assert_ne!(first.id(), second.id());
    let shared = first.share(&mut gl);
    assert_eq!(shared, first);
    assert_ne!(shared, second);
    assert!(first.is_held(&gl) && second.is_held(&gl) && shared.is_held(&gl));
}

#[test]
fn every_family_gives_new_objects_new_identifiers() {
    let mut gl = Gl::fresh();
    let texture = small_texture(&mut gl);
    let other_texture = small_texture(&mut gl);
    let depth = DepthBuffer::new(&mut gl, true, 2, 2).unwrap();
    let frame = FrameBuffer::new(&mut gl, true).unwrap();
    let elements = ElementsBuffer::new(&mut gl, true, &[0, 1, 2], BufferUsage::Static).unwrap();
    let ids = [texture.id(), other_texture.id(), depth.id(), frame.id(), elements.id()];
    for i in 0..ids.len() {
        assert!(gl.is_live(ids[i]));
        for j in 0..i {
            assert_ne!(ids[i], ids[j]);
        }
    }
    assert_ne!(texture, other_texture);
    assert_eq!(texture.share(&mut gl), texture);
    assert_eq!(depth.share(&mut gl), depth);
    assert_eq!(frame.share(&mut gl), frame);
    assert_eq!(elements.share(&mut gl), elements);
}

#[test]
fn the_device_releases_a_buffer_once_when_the_last_handle_goes() {
    for order in [[0usize, 1, 2, 3], [3, 2, 1, 0], [2, 0, 3, 1]] {
        let mut gl = Gl::fresh();
        let buffer = ArrayBuffer::new(&mut gl, true, &[Single(7)], BufferUsage::Dynamic).unwrap();
        let id = buffer.id();
        let mut handles = vec![
            Some(buffer.share(&mut gl)),
            Some(buffer.share(&mut gl)),
            Some(buffer.share(&mut gl)),
            Some(buffer),
        ];
        gl.take_calls();
        for (released, index) in order.iter().enumerate() {
            assert!(gl.is_live(id));
            assert!(gl.take_calls().is_empty());
            handles[*index].take().unwrap().release(&mut gl);
            assert_eq!(gl.is_live(id), released < 3);
        }
        assert_eq!(drained(&mut gl), vec![DeviceCall::DeleteBuffer { buffer: id }]);
        assert!(!gl.is_live(id));
    }
}

#[test]
fn every_family_is_released_with_its_own_call() {
    let mut gl = Gl::fresh();
    let texture = small_texture(&mut gl);
    let depth = DepthBuffer::new(&mut gl, true, 2, 2).unwrap();
    let frame = FrameBuffer::new(&mut gl, true).unwrap();
    let elements = ElementsBuffer::new(&mut gl, true, &[0, 1, 2], BufferUsage::Static).unwrap();
    let items = ItemsBuffer::new(
        &mut gl,
        true,
        &[Point { position: (Single(0), Single(0)) }],
        BufferUsage::Static,
    )
    .unwrap();
    let (t, d, f, e, i) = (texture.id(), depth.id(), frame.id(), elements.id(), items.buffer().id());
    gl.take_calls();
    texture.release(&mut gl);
    depth.release(&mut gl);
    frame.release(&mut gl);
    elements.release(&mut gl);
    items.release(&mut gl);
    assert_eq!(
        drained(&mut gl),
        vec![
            DeviceCall::DeleteTexture { texture: t },
            DeviceCall::DeleteRenderbuffer { renderbuffer: d },
            DeviceCall::DeleteFramebuffer { framebuffer: f },
            DeviceCall::DeleteBuffer { buffer: e },
            DeviceCall::DeleteBuffer { buffer: i },
        ]
    );
    for id in [t, d, f, e, i] {
        assert!(!gl.is_live(id));
    }
}

#[test]
fn creation_fails_with_the_error_of_the_family() {
    let mut gl = Gl::fresh();
    assert_eq!(
        ElementsBuffer::new(&mut gl, false, &[1], BufferUsage::Static).err(),
        Some(GlError::BufferAllocationError)
    );
    assert_eq!(DepthBuffer::new(&mut gl, false, 1, 1).err(), Some(GlError::DepthBufferError));
    assert_eq!(FrameBuffer::new(&mut gl, false).err(), Some(GlError::FrameBufferError));
    assert_eq!(gl.frame_buffer(false).err(), Some(GlError::FrameBufferError));
    assert_eq!(gl.depth_buffer(false, 1, 1).err(), Some(GlError::DepthBufferError));
    assert_eq!(
        gl.items_buffer::<Point>(false, &[], BufferUsage::Static).err(),
        Some(GlError::BufferAllocationError)
    );
    assert_eq!(
        gl.texture(false, 1, 1, TextureType::Byte, TextureFormat::Rgba, TextureContent::Empty)
            .err(),
        Some(GlError::TextureAllocationError)
    );
    assert!(gl.take_calls().is_empty());
    assert!(!gl.is_live(0));
}

#[test]
fn an_element_buffer_uploads_its_indices() {
    let mut gl = Gl::fresh();
    let buffer = ElementsBuffer::new(&mut gl, true, &[0, 1, 2, 2, 1, 3], BufferUsage::Stream).unwrap();
    assert_eq!(buffer.len(&gl), 6);
    let commands = gl.take_calls();
    assert_eq!(
        calls_in(&commands),
        vec![
            DeviceCall::BindBuffer { target: Context::ELEMENT_ARRAY_BUFFER, buffer: Some(buffer.id()) },
            DeviceCall::BufferData {
                target: Context::ELEMENT_ARRAY_BUFFER,
                usage: Context::STREAM_DRAW,
            },
            DeviceCall::BindBuffer { target: Context::ELEMENT_ARRAY_BUFFER, buffer: None },
        ]
    );
    assert_eq!(commands[1].words, vec![0, 1, 2, 2, 1, 3]);
    buffer.set_content(&mut gl, &[5], BufferUsage::Dynamic);
    assert_eq!(buffer.len(&gl), 1);
    let commands = gl.take_calls();
    assert_eq!(commands[1].words, vec![5]);
    assert_eq!(
        commands[1].call,
        DeviceCall::BufferData { target: Context::ELEMENT_ARRAY_BUFFER, usage: Context::DYNAMIC_DRAW }
    );
}

#[test]
fn items_are_written_one_after_the_other() {
    let mut gl = Gl::fresh();
    let points = [
        Point { position: (Single(1), Single(2)) },
        Point { position: (Single(3), Single(4)) },
    ];
    let buffer = gl.items_buffer(true, &points, BufferUsage::Static).unwrap();
    assert_eq!(buffer.len(&gl), 2);
    let commands = gl.take_calls();
    assert_eq!(commands[1].words, vec![1, 2, 3, 4]);
    buffer.set_content(&mut gl, &points[1..], BufferUsage::Static);
    assert_eq!(buffer.len(&gl), 1);
    assert_eq!(gl.take_calls()[1].words, vec![3, 4]);
    let shared = buffer.share(&mut gl);
    assert_eq!(shared, buffer);
    assert_eq!(shared.len(&gl), 1);
}

#[test]
fn a_depth_buffer_allocates_its_storage_while_bound() {
    let mut gl = Gl::fresh();
    let buffer = gl.depth_buffer(true, 640, 480).unwrap();
    assert_eq!(buffer.width(&gl), 640);
    assert_eq!(buffer.height(&gl), 480);
    assert_eq!(
        drained(&mut gl),
        vec![
            DeviceCall::BindRenderbuffer { target: Context::RENDERBUFFER, renderbuffer: Some(buffer.id()) },
            DeviceCall::RenderbufferStorage {
                target: Context::RENDERBUFFER,
                internal_format: Context::DEPTH_COMPONENT16,
                width: 640,
                height: 480,
            },
            DeviceCall::BindRenderbuffer { target: Context::RENDERBUFFER, renderbuffer: None },
        ]
    );
}

#[test]
fn a_frame_buffer_keeps_its_attachments_alive() {
    let mut gl = Gl::fresh();
    let texture = small_texture(&mut gl);
    let depth = DepthBuffer::new(&mut gl, true, 2, 2).unwrap();
    let frame = gl.frame_buffer_with_depth(true, &texture, &depth).unwrap();
    let (t, d, f) = (texture.id(), depth.id(), frame.id());
    gl.take_calls();
    texture.release(&mut gl);
    depth.release(&mut gl);
    assert!(gl.is_live(t) && gl.is_live(d));
    assert!(gl.take_calls().is_empty());
    let color = frame.color_buffer(&mut gl).unwrap();
    assert_eq!(color.id(), t);
    assert!(color.is_held(&gl));
    color.release(&mut gl);
    assert!(gl.is_live(t));
    frame.release(&mut gl);
    assert_eq!(
        drained(&mut gl),
        vec![
            DeviceCall::DeleteFramebuffer { framebuffer: f },
            DeviceCall::DeleteTexture { texture: t },
            DeviceCall::DeleteRenderbuffer { renderbuffer: d },
        ]
    );
    assert!(!gl.is_live(t) && !gl.is_live(d) && !gl.is_live(f));
}

#[test]
fn releasing_a_frame_buffer_leaves_shared_attachments() {
    let mut gl = Gl::fresh();
    let texture = small_texture(&mut gl);
    let frame = gl.frame_buffer_with_color(true, &texture).unwrap();
    let f = frame.id();
    gl.take_calls();
    frame.release(&mut gl);
    assert_eq!(drained(&mut gl), vec![DeviceCall::DeleteFramebuffer { framebuffer: f }]);
    assert!(texture.is_held(&gl));
    assert_eq!(texture.width(&gl), 2);
}

#[test]
fn attaching_replaces_and_releases_the_former_attachment() {
    let mut gl = Gl::fresh();
    let first = small_texture(&mut gl);
    let second = small_texture(&mut gl);
    let frame = gl.frame_buffer(true).unwrap();
    assert!(frame.color_buffer(&mut gl).is_none());
    assert!(frame.depth_buffer(&mut gl).is_none());
    frame.set_color_buffer(&mut gl, Some(&first));
    let (a, b, f) = (first.id(), second.id(), frame.id());
    first.release(&mut gl);
    assert!(gl.is_live(a));
    gl.take_calls();
    frame.set_color_buffer(&mut gl, Some(&second));
    let attach = |texture: Option<u64>| DeviceCall::FramebufferTexture2d {
        target: Context::FRAMEBUFFER,
        attachment: Context::COLOR_ATTACHMENT0,
        texture_target: Context::TEXTURE_2D,
        texture,
        level: 0,
    };
    let bind = |framebuffer: Option<u64>| DeviceCall::BindFramebuffer {
        target: Context::FRAMEBUFFER,
        framebuffer,
    };
    assert_eq!(
        drained(&mut gl),
        vec![bind(Some(f)), attach(Some(b)), bind(None), DeviceCall::DeleteTexture { texture: a }]
    );
    assert!(!gl.is_live(a));
    frame.set_color_buffer(&mut gl, None);
    assert_eq!(drained(&mut gl), vec![bind(Some(f)), attach(None), bind(None)]);
    assert!(second.is_held(&gl));
    assert!(frame.color_buffer(&mut gl).is_none());
    let depth = DepthBuffer::new(&mut gl, true, 2, 2).unwrap();
    gl.take_calls();
    frame.set_depth_buffer(&mut gl, Some(&depth));
    assert_eq!(
        drained(&mut gl),
        vec![
            bind(Some(f)),
            DeviceCall::FramebufferRenderbuffer {
                target: Context::FRAMEBUFFER,
                attachment: Context::DEPTH_ATTACHMENT,
                renderbuffer_target: Context::RENDERBUFFER,
                renderbuffer: Some(depth.id()),
            },
            bind(None),
        ]
    );
    assert_eq!(frame.depth_buffer(&mut gl).unwrap(), depth);
}
