use chunk_runtime::error::Error;

#[test]
fn errors_carry_their_key() {
    assert_eq!(Error::MissingChunk(3).ukey(), 3);
    assert_eq!(Error::MissingEntryPoint(4).ukey(), 4);
    assert_eq!(Error::MissingChunkGroup(5).ukey(), 5);
    assert_eq!(Error::MissingRuntimeChunk(6).ukey(), 6);
    assert_eq!(Error::FixedPointOverrun(7).ukey(), 7);
    assert_ne!(Error::MissingChunk(3), Error::MissingRuntimeChunk(3));
}

#[test]
fn errors_have_their_messages() {
    assert_eq!(Error::MissingChunk(3).message(), "chunk not found");
    assert_eq!(Error::MissingEntryPoint(4).message(), "should has entry point ukey");
    assert_eq!(Error::MissingChunkGroup(5).message(), "should has entry point");
    assert_eq!(Error::MissingRuntimeChunk(6).message(), "should has runtime chunk");
    assert_eq!(Error::FixedPointOverrun(7).message(), "runtime requirements did not settle");
}
