use bcbc::ByteStr;
use bytes::Bytes;

trait AssertImpl {
    const ASSERT: () = ();
}

struct A<T>(T);

impl<'a, T: From<&'a str>> AssertImpl for A<T> {
    const ASSERT: () = ();
}

struct B<T>(T);

impl<T: From<&'static str>> AssertImpl for B<T> {
    const ASSERT: () = ();
}

#[test]
fn test() {
    let _ = A::<Vec<u8>>::ASSERT;
    let _ = A::<Bytes>::ASSERT;
    let _ = A::<ByteStr<&[u8]>>::ASSERT;
    let _ = A::<ByteStr<Bytes>>::ASSERT;

    let _ = B::<Bytes>::ASSERT;
    let _ = B::<ByteStr<&'static [u8]>>::ASSERT;
    let _ = B::<ByteStr<Bytes>>::ASSERT;
}
