use sinewave::format::SampleFormat;

#[test]
fn only_f32_is_supported() {
    assert!(SampleFormat::F32.is_supported());
    let others = [
        SampleFormat::I8,
        SampleFormat::I16,
        SampleFormat::I32,
        SampleFormat::I64,
        SampleFormat::U8,
        SampleFormat::U16,
        SampleFormat::U32,
        SampleFormat::U64,
        SampleFormat::F64,
        SampleFormat::Unknown,
    ];
    for format in others {
        assert!(!format.is_supported(), "{:?}", format);
    }
}
