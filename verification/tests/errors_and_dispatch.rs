use resampler::cpu::CpuExtensions;
use resampler::errors::ResizeError;
use resampler::filters::FilterType;
use resampler::images::Image;
use resampler::pixels::PixelType;
use resampler::resizer::{ResizeAlg, Resizer};

#[test]
fn mismatched_declared_size_fails_and_leaves_destination_untouched() {
    let src = Image::from_vec(2, 2, PixelType::U8, vec![1, 2, 3, 4]).unwrap();
    // Declared 4x4 but only 7 bytes of backing storage.
    let mut dst = Image::from_parts(4, 4, PixelType::U8, vec![9; 7]);
    let resizer = Resizer::new(ResizeAlg::Convolution(FilterType::Bilinear));
    let r = resizer.resize(&src, &mut dst);
    assert_eq!(r, Err(ResizeError::InvalidBufferSize));
    assert_eq!(dst.buffer().as_slice(), &[9; 7]);
    assert_eq!(dst.width(), 4);
    assert_eq!(dst.height(), 4);
}

#[test]
fn mismatched_source_size_fails() {
    let src = Image::from_parts(2, 2, PixelType::U8, vec![1, 2, 3]);
    let mut dst = Image::new(2, 2, PixelType::U8).unwrap();
    let resizer = Resizer::new(ResizeAlg::Nearest);
    assert_eq!(
        resizer.resize(&src, &mut dst),
        Err(ResizeError::InvalidBufferSize)
    );
}

#[test]
fn pixel_type_mismatch_fails() {
    let src = Image::new(2, 2, PixelType::U8).unwrap();
    let mut dst = Image::new(2, 2, PixelType::U16).unwrap();
    let resizer = Resizer::new(ResizeAlg::Nearest);
    assert_eq!(
        resizer.resize(&src, &mut dst),
        Err(ResizeError::PixelTypeMismatch)
    );
}

#[test]
fn zero_dimension_view_fails() {
    let src = Image::from_parts(0, 2, PixelType::U8, vec![]);
    let mut dst = Image::new(2, 2, PixelType::U8).unwrap();
    let resizer = Resizer::new(ResizeAlg::Nearest);
    assert_eq!(
        resizer.resize(&src, &mut dst),
        Err(ResizeError::InvalidZeroDimension)
    );
}

#[test]
fn zero_dimension_construction_fails() {
    assert_eq!(
        Image::new(0, 5, PixelType::U8).unwrap_err(),
        ResizeError::InvalidZeroDimension
    );
    assert_eq!(
        Image::new(5, 0, PixelType::U8).unwrap_err(),
        ResizeError::InvalidZeroDimension
    );
}

#[test]
fn from_vec_checks_byte_length() {
    assert_eq!(
        Image::from_vec(2, 2, PixelType::U16, vec![0; 7]).unwrap_err(),
        ResizeError::InvalidBufferSize
    );
    let img = Image::from_vec(2, 2, PixelType::U16, vec![0; 8]).unwrap();
    assert_eq!(img.buffer().len(), 8);
}

#[test]
fn error_messages_are_nonempty() {
    for e in [
        ResizeError::InvalidZeroDimension,
        ResizeError::PixelTypeMismatch,
        ResizeError::InvalidBufferSize,
        ResizeError::UnsupportedCpuExtension,
    ] {
        assert!(!e.message().is_empty());
    }
}

#[test]
fn unsupported_cpu_extension_is_rejected() {
    let mut resizer = Resizer::new(ResizeAlg::Nearest);
    let r = resizer.try_set_cpu_extensions(CpuExtensions::Avx2, CpuExtensions::Scalar);
    assert_eq!(r, Err(ResizeError::UnsupportedCpuExtension));
    assert_eq!(resizer.cpu_extensions(), CpuExtensions::Scalar);
}

#[test]
fn supported_cpu_extensions_are_accepted() {
    let mut resizer = Resizer::new(ResizeAlg::Nearest);
    assert_eq!(
        resizer.try_set_cpu_extensions(CpuExtensions::Sse4_1, CpuExtensions::Avx2),
        Ok(())
    );
    assert_eq!(resizer.cpu_extensions(), CpuExtensions::Sse4_1);
    assert_eq!(
        resizer.try_set_cpu_extensions(CpuExtensions::Scalar, CpuExtensions::Neon),
        Ok(())
    );
    assert_eq!(resizer.cpu_extensions(), CpuExtensions::Scalar);
}

#[test]
fn every_backend_produces_identical_output() {
    let bytes: Vec<u8> = (0..7 * 5).map(|i| (i * 7 % 256) as u8).collect();
    let src = Image::from_vec(7, 5, PixelType::U8, bytes).unwrap();
    let reference = {
        let mut dst = Image::new(3, 4, PixelType::U8).unwrap();
        Resizer::with_cpu_extensions(
            ResizeAlg::Convolution(FilterType::Lanczos3),
            CpuExtensions::Scalar,
        )
        .resize(&src, &mut dst)
        .unwrap();
        dst.buffer().clone()
    };
    for cpu in [
        CpuExtensions::Sse4_1,
        CpuExtensions::Avx2,
        CpuExtensions::Neon,
        CpuExtensions::Simd128,
    ] {
        let mut dst = Image::new(3, 4, PixelType::U8).unwrap();
        Resizer::with_cpu_extensions(ResizeAlg::Convolution(FilterType::Lanczos3), cpu)
            .resize(&src, &mut dst)
            .unwrap();
        assert_eq!(dst.buffer(), &reference, "cpu {:?}", cpu);
    }
}
