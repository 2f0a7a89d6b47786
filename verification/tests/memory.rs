use rwkv_hip::buffer::{DeviceBuffer, MemoryType};
use rwkv_hip::device::HipContext;
use rwkv_hip::stream::{CommandOf, Elem, HostData, Stream};
use rwkv_hip::tensor::{TensorHip, TensorShape, F16, F32, I32, U32};
use std::collections::HashMap;

/// A device that moves data and runs no kernel.
struct Device {
    buffers: HashMap<usize, Vec<u32>>,
}

fn bits(data: &HostData) -> Vec<u32> {
    match data {
        HostData::F16(v) => v.iter().map(|x| *x as u32).collect(),
        HostData::F32(v) => v.clone(),
        HostData::I32(v) => v.iter().map(|x| *x as u32).collect(),
        HostData::U32(v) => v.clone(),
    }
}

fn typed(elem: Elem, v: Vec<u32>) -> HostData {
    match elem {
        Elem::F16 => HostData::F16(v.iter().map(|x| *x as u16).collect()),
        Elem::F32 => HostData::F32(v),
        Elem::I32 => HostData::I32(v.iter().map(|x| *x as i32).collect()),
        Elem::U32 => HostData::U32(v),
    }
}

impl Device {
    fn new() -> Device {
        Device { buffers: HashMap::new() }
    }

    fn run(&mut self, stream: &mut Stream) -> Vec<HostData> {
        let mut replies = Vec::new();
        for command in stream.take() {
            match command {
                CommandOf::Alloc { buffer, len, zeroed, .. } => {
                    let fill = if zeroed { 0 } else { 0xdead_beef };
                    assert!(self.buffers.insert(buffer, vec![fill; len]).is_none());
                }
                CommandOf::Upload { dst, data } => {
                    let v = bits(&data);
                    let buffer = self.buffers.get_mut(&dst.buffer).unwrap();
                    buffer[dst.offset..dst.offset + v.len()].copy_from_slice(&v);
                }
                CommandOf::Download { src, elem, len } => {
                    let buffer = &self.buffers[&src.buffer];
                    replies.push(typed(elem, buffer[src.offset..src.offset + len].to_vec()));
                }
                CommandOf::Zero { dst, len, .. } => {
                    let buffer = self.buffers.get_mut(&dst.buffer).unwrap();
                    buffer[dst.offset..dst.offset + len].fill(0);
                }
                _ => {}
            }
        }
        replies
    }
}

fn singles(v: &[f32]) -> HostData {
    HostData::F32(v.iter().map(|x| x.to_bits()).collect())
}

fn as_floats(data: &HostData) -> Vec<f32> {
    match data {
        HostData::F32(v) => v.iter().map(|x| f32::from_bits(*x)).collect(),
        _ => panic!("single precision values expected"),
    }
}

#[test]
fn test_hip_memory_roundtrip() {
    let mut device = Device::new();
    let mut stream = Stream::null();
    let host_data: Vec<f32> = (0..1024).map(|i| i as f32).collect();

    let device_buf = DeviceBuffer::<F32>::new(1024, &mut stream).expect("Failed to allocate");
    device_buf
        .copy_from_host(singles(&host_data), &mut stream)
        .expect("Failed to copy to device");
    device_buf
        .copy_to_host(1024, &mut stream)
        .expect("Failed to copy to host");
    stream.synchronize();

    let replies = device.run(&mut stream);
    assert_eq!(replies.len(), 1);
    assert_eq!(host_data, as_floats(&replies[0]), "Memcpy roundtrip failed");
}

#[test]
fn a_context_takes_one_of_the_devices() {
    let ctx = HipContext::with_device(2, 3).unwrap();
    assert_eq!(ctx.device_id(), 2);
    assert_eq!(HipContext::new(1).unwrap().device_id(), 0);
    let e = HipContext::with_device(3, 3).err().unwrap();
    assert_eq!(e.message, "Invalid device ID 3: only 3 device(s) available");
    let e = HipContext::with_device(-1, 3).err().unwrap();
    assert_eq!(e.message, "Invalid device ID -1: only 3 device(s) available");
    let e = HipContext::new(0).err().unwrap();
    assert_eq!(e.message, "Invalid device ID 0: only 0 device(s) available");
}

#[test]
fn test_hip_stream_sync() {
    let mut ctx = HipContext::new(1).expect("Failed to create context");
    ctx.synchronize();
    assert_eq!(ctx.stream().commands().len(), 1);
    assert!(matches!(ctx.stream().commands()[0], CommandOf::Synchronize));
}

#[test]
fn test_tensor_alloc() {
    let mut device = Device::new();
    let mut stream = Stream::null();

    let shape = TensorShape::new(2, 3, 4, 1);
    let tensor = TensorHip::<F32>::new(shape, &mut stream).expect("Failed to allocate device tensor");
    assert_eq!(tensor.shape(), shape);
    assert_eq!(tensor.len(), 24);
    assert!(tensor.is_contiguous());
    assert_eq!(tensor.memory_type(), MemoryType::Device);

    let managed_tensor =
        TensorHip::<F32>::managed(shape, &mut stream).expect("Failed to allocate managed tensor");
    assert_eq!(managed_tensor.shape(), shape);
    assert_eq!(managed_tensor.memory_type(), MemoryType::Managed);

    let zeros_tensor =
        TensorHip::<F32>::zeros(shape, &mut stream).expect("Failed to allocate zeros tensor");
    zeros_tensor.download(&mut stream);
    let data = as_floats(&device.run(&mut stream)[0]);
    assert_eq!(data.len(), 24);
    assert!(data.iter().all(|&x| x == 0.0), "Zeros tensor should be all zeros");

    let empty_shape = TensorShape::new(0, 1, 1, 1);
    let empty_tensor =
        TensorHip::<F32>::new(empty_shape, &mut stream).expect("Failed to allocate empty tensor");
    assert!(empty_tensor.is_empty());
}

#[test]
fn test_tensor_copy_roundtrip() {
    let mut device = Device::new();
    let mut stream = Stream::null();

    let shape = TensorShape::new(4, 3, 2, 1);
    let host_data: Vec<f32> = (0..24).map(|i| i as f32).collect();

    let tensor = TensorHip::<F32>::from_host(singles(&host_data), shape, &mut stream)
        .expect("Failed to create tensor from slice");
    assert_eq!(tensor.shape(), shape);
    assert_eq!(tensor.len(), 24);

    tensor.download(&mut stream);
    let result = as_floats(&device.run(&mut stream)[0]);
    assert_eq!(host_data, result, "Roundtrip data should match");

    let tensor2 = TensorHip::<F32>::new(shape, &mut stream).expect("Failed to allocate tensor");
    tensor2
        .copy_from_host(singles(&host_data), &mut stream)
        .expect("Failed to copy from slice");
    stream.synchronize();
    tensor2.download(&mut stream);
    let result2 = as_floats(&device.run(&mut stream)[0]);
    assert_eq!(host_data, result2, "copy_from_slice data should match");
}

#[test]
fn test_tensor_view_strides() {
    let mut stream = Stream::null();

    // shape[0]=4 is fastest (contiguous)
    let shape = TensorShape::new(4, 3, 2, 1);
    let host_data: Vec<f32> = (0..24).map(|i| i as f32).collect();
    let tensor = TensorHip::<F32>::from_host(singles(&host_data), shape, &mut stream)
        .expect("Failed to create tensor");

    let strides = tensor.strides();
    assert_eq!(strides, [1, 4, 12, 24], "Strides should be [1, 4, 12, 24]");

    // Element at (x=1, y=2, z=1, w=0) should be at index: 1 + 2*4 + 1*12 = 21
    let idx = shape.linear_index(1, 2, 1, 0);
    assert_eq!(idx, 21, "Linear index (1,2,1,0) should be 21");

    // First row of each "page" (x=0..4, y=0..1, z=0..2)
    let view = tensor
        .sub_view((0, 4), (0, 1), (0, 2), (0, 1))
        .expect("Failed to create view");
    assert_eq!(view.shape(), TensorShape::new(4, 1, 2, 1));
    assert_eq!(view.len(), 8);
    assert!(!view.is_contiguous(), "View with gap in y should not be contiguous");

    let view_strides = view.strides();
    assert_eq!(view_strides, strides, "View should inherit parent strides");

    let tv = tensor.tensor_view();
    assert_eq!(tv.offset, 0, "Original tensor offset should be 0");

    let view2 = tensor
        .sub_view((2, 4), (1, 3), (0, 2), (0, 1))
        .expect("Failed to create view2");
    let expected_offset = 2 * 1 + 1 * 4 + 0 * 12; // = 6
    assert_eq!(view2.offset(), expected_offset, "View offset should be 6");
    assert_eq!(view2.shape(), TensorShape::new(2, 2, 2, 1));

    let full_view = tensor
        .sub_view((0, 4), (0, 3), (0, 2), (0, 1))
        .expect("Failed to create full view");
    assert!(full_view.is_contiguous(), "Full view should be contiguous");
}

#[test]
fn a_view_may_not_reach_beyond_its_tensor() {
    let mut stream = Stream::new();
    let tensor = TensorHip::<F16>::new(TensorShape::new(4, 3, 2, 1), &mut stream).unwrap();
    let e = tensor.sub_view((0, 5), (0, 3), (0, 2), (0, 1)).unwrap_err();
    assert_eq!(e.code, -1);
    assert_eq!(e.message, "View out of range for shape [4, 3, 2, 1]");
    let e = tensor.resized_view(TensorShape::new(5, 5, 1, 1)).unwrap_err();
    assert_eq!(e.message, "Resized view [5, 5, 1, 1] exceeds tensor [4, 3, 2, 1]");
    let small = tensor.resized_view(TensorShape::new(2, 3, 1, 1)).unwrap();
    assert_eq!(small.len(), 6);
    assert_eq!(small.as_ptr(), tensor.as_ptr());
}

#[test]
fn reshaping_keeps_the_number_of_elements() {
    let mut stream = Stream::new();
    let tensor = TensorHip::<F16>::new(TensorShape::new(4, 3, 2, 1), &mut stream).unwrap();
    let other = tensor.reshape_view(TensorShape::new(2, 2, 3, 2)).unwrap();
    assert_eq!(other.strides(), [1, 2, 4, 12]);
    let e = tensor.reshape_view(TensorShape::new(4, 3, 1, 1)).unwrap_err();
    assert_eq!(e.message, "Reshape size mismatch: [4, 3, 2, 1] to [4, 3, 1, 1]");
    let gapped = tensor.sub_view((0, 4), (0, 1), (0, 2), (0, 1)).unwrap();
    let e = gapped.reshape_view(TensorShape::new(8, 1, 1, 1)).unwrap_err();
    assert_eq!(e.message, "Reshape requires a contiguous tensor");
}

#[test]
fn sizes_of_host_and_device_must_agree() {
    let mut stream = Stream::new();
    let buffer = DeviceBuffer::<U32>::new(3, &mut stream).unwrap();
    let e = buffer.copy_from_host(HostData::U32(vec![1, 2]), &mut stream).unwrap_err();
    assert_eq!(e.message, "Size mismatch: host 2 vs device 3");
    let e = buffer.copy_to_host(4, &mut stream).unwrap_err();
    assert_eq!(e.message, "Size mismatch: device 3 vs host 4");
    let shape = TensorShape::new(2, 2, 1, 1);
    let e = TensorHip::<I32>::from_host(HostData::I32(vec![1, -2, 3]), shape, &mut stream).unwrap_err();
    assert_eq!(e.message, "Data size mismatch: 3 elements for shape [2, 2, 1, 1]");
    // Only the buffer was allocated, and nothing was moved.
    assert_eq!(stream.commands().len(), 1);
}

#[test]
fn an_empty_buffer_moves_nothing() {
    let mut stream = Stream::new();
    let buffer = DeviceBuffer::<F32>::new(0, &mut stream).unwrap();
    assert!(buffer.is_empty());
    buffer.copy_from_host(HostData::F32(vec![]), &mut stream).unwrap();
    buffer.copy_to_host(0, &mut stream).unwrap();
    assert!(stream.commands().is_empty());
}

#[test]
fn every_kind_of_element_comes_back() {
    let mut device = Device::new();
    let mut stream = Stream::new();
    let shape = TensorShape::new(3, 1, 1, 1);
    let a = TensorHip::<I32>::from_host(HostData::I32(vec![-1, 0, i32::MIN]), shape, &mut stream);
    let b = TensorHip::<F16>::from_host_managed(HostData::F16(vec![1, 0xffff, 7]), shape, &mut stream);
    let c = TensorHip::<U32>::from_host(HostData::U32(vec![u32::MAX, 0, 9]), shape, &mut stream);
    a.unwrap().download(&mut stream);
    b.unwrap().download(&mut stream);
    c.unwrap().download(&mut stream);
    let replies = device.run(&mut stream);
    assert!(matches!(&replies[0], HostData::I32(v) if *v == vec![-1, 0, i32::MIN]));
    assert!(matches!(&replies[1], HostData::F16(v) if *v == vec![1, 0xffff, 7]));
    assert!(matches!(&replies[2], HostData::U32(v) if *v == vec![u32::MAX, 0, 9]));
}
