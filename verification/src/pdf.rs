//! A minimal PDF container: numbered objects, a cross-reference table whose
//! entries hold the offsets of the objects, and a trailer. On top of it, the
//! single-page document that shows one JPEG image.
use vstd::prelude::*;
use vstd::utf8::encode_utf8;

verus! {

/// The bytes of a text.
pub open spec fn lit(s: &str) -> Seq<u8> {
    encode_utf8(s@)
}

/// The ASCII digit of a number below ten.
pub open spec fn digit_byte(d: nat) -> u8 {
    (48 + d) as u8
}

/// The decimal digits of a number, as bytes, without leading zeros.
pub open spec fn number(n: nat) -> Seq<u8>
    decreases n,
{
    if n < 10 {
        seq![digit_byte(n)]
    } else {
        number(n / 10).push(digit_byte(n % 10))
    }
}

/// The last `width` decimal digits of a number, as bytes, with leading zeros.
pub open spec fn padded(n: nat, width: nat) -> Seq<u8>
    decreases width,
{
    if width == 0 {
        Seq::<u8>::empty()
    } else {
        padded(n / 10, (width - 1) as nat).push(digit_byte(n % 10))
    }
}

/// The first line of the file.
pub open spec fn header() -> Seq<u8> {
    lit("%PDF-1.5\n")
}

/// The file up to, not including, object number `k + 1`: the header and the
/// first `k` objects.
pub open spec fn body(objects: Seq<Seq<u8>>, k: int) -> Seq<u8>
    decreases k,
{
    if k <= 0 {
        header()
    } else {
        body(objects, k - 1) + objects[k - 1]
    }
}

/// The offset in the file at which object number `k + 1` begins; for
/// `k == objects.len()`, the offset of the cross-reference table.
pub open spec fn object_offset(objects: Seq<Seq<u8>>, k: int) -> nat {
    body(objects, k).len()
}

/// The cross-reference entries of the first `k` objects.
pub open spec fn xref_entries(objects: Seq<Seq<u8>>, k: int) -> Seq<u8>
    decreases k,
{
    if k <= 0 {
        Seq::<u8>::empty()
    } else {
        xref_entries(objects, k - 1) + padded(object_offset(objects, k - 1), 10) + lit(
            " 00000 n \n",
        )
    }
}

/// The cross-reference table: one entry for the free object 0 and one for
/// every object.
pub open spec fn xref_table(objects: Seq<Seq<u8>>) -> Seq<u8> {
    lit("xref\n0 ") + number(objects.len() + 1) + lit("\n0000000000 65535 f \n") + xref_entries(
        objects,
        objects.len() as int,
    )
}

/// The trailer: the size is one more than the number of objects, the root is
/// the last object, and `startxref` is the offset of the cross-reference
/// table.
pub open spec fn trailer(objects: Seq<Seq<u8>>) -> Seq<u8> {
    lit("trailer\n<< /Size ") + number(objects.len() + 1) + lit(" /Root ") + number(objects.len())
        + lit(" 0 R >>\nstartxref\n") + number(object_offset(objects, objects.len() as int)) + lit(
        "\n%%EOF\n",
    )
}

/// The whole file that holds the given objects, numbered from 1 in order.
pub open spec fn document(objects: Seq<Seq<u8>>) -> Seq<u8> {
    body(objects, objects.len() as int) + xref_table(objects) + trailer(objects)
}

/// Whether the number of objects and every offset of the file can be
/// written in the ten digits of a cross-reference entry.
pub open spec fn offsets_fit(objects: Seq<Seq<u8>>) -> bool {
    objects.len() < 10_000_000_000 && object_offset(objects, objects.len() as int)
        < 10_000_000_000
}

/// The byte strings held by a vector of byte vectors.
pub open spec fn blobs(parts: Seq<Vec<u8>>) -> Seq<Seq<u8>> {
    Seq::new(parts.len(), |i: int| parts[i]@)
}

/// The stream of the image object: the JPEG bytes under a dictionary that
/// gives the pixel dimensions, the colour space and the filter.
pub open spec fn image_object(width: nat, height: nat, jpeg: Seq<u8>) -> Seq<u8> {
    lit("1 0 obj\n<< /Type /XObject /Subtype /Image /Width ") + number(width) + lit(" /Height ")
        + number(height) + lit(
        " /ColorSpace /DeviceRGB /BitsPerComponent 8 /Filter /DCTDecode /Length ",
    ) + number(jpeg.len()) + lit(" >>\nstream\n") + jpeg + lit("\nendstream\nendobj\n")
}

/// The page's drawing operators: the image scaled to the page.
pub open spec fn content_stream(width: nat, height: nat) -> Seq<u8> {
    lit("q\n") + number(width) + lit(" 0 0 ") + number(height) + lit(" 0 0 cm\n/Im1 Do\nQ")
}

/// The object that holds the page's drawing operators.
pub open spec fn content_object(width: nat, height: nat) -> Seq<u8> {
    lit("2 0 obj\n<< /Length ") + number(content_stream(width, height).len()) + lit(
        " >>\nstream\n",
    ) + content_stream(width, height) + lit("\nendstream\nendobj\n")
}

/// The page tree: one page.
pub open spec fn pages_object() -> Seq<u8> {
    lit("3 0 obj\n<< /Type /Pages /Kids [4 0 R] /Count 1 >>\nendobj\n")
}

/// The page: as large as the image, drawing the image object.
pub open spec fn page_object(width: nat, height: nat) -> Seq<u8> {
    lit("4 0 obj\n<< /Type /Page /Parent 3 0 R /MediaBox [0 0 ") + number(width) + lit(" ")
        + number(height) + lit(
        "] /Resources << /XObject << /Im1 1 0 R >> >> /Contents 2 0 R >>\nendobj\n",
    )
}

/// The catalog, which points at the page tree.
pub open spec fn catalog_object() -> Seq<u8> {
    lit("5 0 obj\n<< /Type /Catalog /Pages 3 0 R >>\nendobj\n")
}

/// The five objects of the document that shows one image.
pub open spec fn image_objects(width: nat, height: nat, jpeg: Seq<u8>) -> Seq<Seq<u8>> {
    seq![
        image_object(width, height, jpeg),
        content_object(width, height),
        pages_object(),
        page_object(width, height),
        catalog_object(),
    ]
}

/// The single-page document that shows a JPEG image of the given size.
pub open spec fn image_document(width: nat, height: nat, jpeg: Seq<u8>) -> Seq<u8> {
    document(image_objects(width, height, jpeg))
}

/// Appends the bytes of `tail`.
pub fn push_bytes(out: &mut Vec<u8>, tail: &[u8])
    ensures
        final(out)@ == old(out)@ + tail@,
{
    let mut i: usize = 0;
    while i < tail.len()
        invariant
            i <= tail.len(),
            out@ == old(out)@ + tail@.take(i as int),
        decreases tail.len() - i,
    {
        out.push(tail[i]);
        i += 1;
    }
}

/// Appends the bytes of a text.
pub fn push_lit(out: &mut Vec<u8>, s: &str)
    ensures
        final(out)@ == old(out)@ + lit(s),
{
    push_bytes(out, s.as_bytes());
}

/// Appends the decimal digits of `n`.
pub fn push_number(out: &mut Vec<u8>, n: u64)
    ensures
        final(out)@ == old(out)@ + number(n as nat),
    decreases n,
{
    if n >= 10 {
        push_number(out, n / 10);
    }
    let d: u8 = (n % 10) as u8;
    out.push(48u8 + d);
}

/// Appends the last `width` decimal digits of `n`, with leading zeros.
pub fn push_padded(out: &mut Vec<u8>, n: u64, width: u8)
    ensures
        final(out)@ == old(out)@ + padded(n as nat, width as nat),
    decreases width,
{
    if width > 0 {
        push_padded(out, n / 10, width - 1);
        let d: u8 = (n % 10) as u8;
        out.push(48u8 + d);
    }
}

/// The file holds every object unchanged at the offset that its
/// cross-reference entry gives.
pub proof fn lemma_object_at_offset(objects: Seq<Seq<u8>>, k: int)
    requires
        0 <= k < objects.len(),
    ensures
        object_offset(objects, k) + objects[k].len() <= document(objects).len(),
        document(objects).subrange(
            object_offset(objects, k) as int,
            (object_offset(objects, k) + objects[k].len()) as int,
        ) == objects[k],
{
    lemma_body_holds(objects, k, objects.len() as int);
    let b = body(objects, objects.len() as int);
    let lo = object_offset(objects, k) as int;
    let hi = lo + objects[k].len();
    assert(document(objects).subrange(lo, hi) == b.subrange(lo, hi));
}

/// The first `m` objects of the file include object number `k + 1`, at its
/// offset.
pub proof fn lemma_body_holds(objects: Seq<Seq<u8>>, k: int, m: int)
    requires
        0 <= k < m <= objects.len(),
    ensures
        object_offset(objects, k) + objects[k].len() <= body(objects, m).len(),
        body(objects, m).subrange(
            object_offset(objects, k) as int,
            (object_offset(objects, k) + objects[k].len()) as int,
        ) == objects[k],
    decreases m,
{
    let lo = object_offset(objects, k) as int;
    let hi = lo + objects[k].len();
    if m == k + 1 {
        assert(body(objects, m) == body(objects, k) + objects[k]);
        assert(body(objects, m).subrange(lo, hi) == objects[k]);
    } else {
        lemma_body_holds(objects, k, m - 1);
        assert(body(objects, m).subrange(lo, hi) == body(objects, m - 1).subrange(lo, hi));
    }
}

/// The cross-reference table begins at the offset that `startxref` gives.
pub proof fn lemma_xref_at_offset(objects: Seq<Seq<u8>>)
    ensures
        document(objects).subrange(
            object_offset(objects, objects.len() as int) as int,
            (object_offset(objects, objects.len() as int) + xref_table(objects).len()) as int,
        ) == xref_table(objects),
{
    let b = body(objects, objects.len() as int);
    assert(document(objects) == b + (xref_table(objects) + trailer(objects)));
}

/// Writes the file that holds the given objects, numbered from 1 in order:
/// `None` where the number of objects or an offset does not fit the ten
/// digits of a cross-reference entry.
pub fn assemble(objects: &Vec<Vec<u8>>) -> (r: Option<Vec<u8>>)
    ensures
        match r {
            Some(bytes) => offsets_fit(blobs(objects@)) && bytes@ == document(blobs(objects@)),
            None => !offsets_fit(blobs(objects@)),
        },
{
    let ghost objs = blobs(objects@);
    let n: usize = objects.len();
    let mut out: Vec<u8> = Vec::new();
    let mut offsets: Vec<u64> = Vec::new();
    push_lit(&mut out, "%PDF-1.5\n");
    let mut k: usize = 0;
    while k < n
        invariant
            k <= n,
            n == objects.len(),
            objs == blobs(objects@),
            out@ == body(objs, k as int),
            offsets.len() == k,
            forall|j: int| 0 <= j < k ==> offsets[j] == object_offset(objs, j),
        decreases n - k,
    {
        offsets.push(out.len() as u64);
        push_bytes(&mut out, objects[k].as_slice());
        k += 1;
    }
    let start: usize = out.len();
    if start as u64 >= 10_000_000_000 || n as u64 >= 10_000_000_000 {
        return None;
    }
    let ghost whole = out@;
    push_lit(&mut out, "xref\n0 ");
    push_number(&mut out, n as u64 + 1);
    push_lit(&mut out, "\n0000000000 65535 f \n");
    let ghost head = out@;
    let mut k: usize = 0;
    while k < n
        invariant
            k <= n,
            n == offsets.len(),
            forall|j: int| 0 <= j < n ==> offsets[j] == object_offset(objs, j),
            out@ == head + xref_entries(objs, k as int),
        decreases n - k,
    {
        push_padded(&mut out, offsets[k], 10);
        push_lit(&mut out, " 00000 n \n");
        k += 1;
    }
    assert(out@ == whole + xref_table(objs));
    push_lit(&mut out, "trailer\n<< /Size ");
    push_number(&mut out, n as u64 + 1);
    push_lit(&mut out, " /Root ");
    push_number(&mut out, n as u64);
    push_lit(&mut out, " 0 R >>\nstartxref\n");
    push_number(&mut out, start as u64);
    push_lit(&mut out, "\n%%EOF\n");
    assert(out@ == whole + xref_table(objs) + trailer(objs));
    Some(out)
}

/// Writes the single-page document that shows a JPEG image of the given
/// size: `None` where the file would be too large for its cross-reference
/// table.
pub fn write_image_document(width: u32, height: u32, jpeg: &Vec<u8>) -> (r: Option<Vec<u8>>)
    ensures
        match r {
            Some(bytes) => {
                &&& offsets_fit(image_objects(width as nat, height as nat, jpeg@))
                &&& bytes@ == image_document(width as nat, height as nat, jpeg@)
            },
            None => !offsets_fit(image_objects(width as nat, height as nat, jpeg@)),
        },
{
    let mut image: Vec<u8> = Vec::new();
    push_lit(&mut image, "1 0 obj\n<< /Type /XObject /Subtype /Image /Width ");
    push_number(&mut image, width as u64);
    push_lit(&mut image, " /Height ");
    push_number(&mut image, height as u64);
    push_lit(
        &mut image,
        " /ColorSpace /DeviceRGB /BitsPerComponent 8 /Filter /DCTDecode /Length ",
    );
    push_number(&mut image, jpeg.len() as u64);
    push_lit(&mut image, " >>\nstream\n");
    push_bytes(&mut image, jpeg.as_slice());
    push_lit(&mut image, "\nendstream\nendobj\n");

    let mut stream: Vec<u8> = Vec::new();
    push_lit(&mut stream, "q\n");
    push_number(&mut stream, width as u64);
    push_lit(&mut stream, " 0 0 ");
    push_number(&mut stream, height as u64);
    push_lit(&mut stream, " 0 0 cm\n/Im1 Do\nQ");

    let mut content: Vec<u8> = Vec::new();
    push_lit(&mut content, "2 0 obj\n<< /Length ");
    push_number(&mut content, stream.len() as u64);
    push_lit(&mut content, " >>\nstream\n");
    push_bytes(&mut content, stream.as_slice());
    push_lit(&mut content, "\nendstream\nendobj\n");

    let mut pages: Vec<u8> = Vec::new();
    push_lit(&mut pages, "3 0 obj\n<< /Type /Pages /Kids [4 0 R] /Count 1 >>\nendobj\n");

    let mut page: Vec<u8> = Vec::new();
    push_lit(&mut page, "4 0 obj\n<< /Type /Page /Parent 3 0 R /MediaBox [0 0 ");
    push_number(&mut page, width as u64);
    push_lit(&mut page, " ");
    push_number(&mut page, height as u64);
    push_lit(
        &mut page,
        "] /Resources << /XObject << /Im1 1 0 R >> >> /Contents 2 0 R >>\nendobj\n",
    );

    let mut catalog: Vec<u8> = Vec::new();
    push_lit(&mut catalog, "5 0 obj\n<< /Type /Catalog /Pages 3 0 R >>\nendobj\n");

    let mut objects: Vec<Vec<u8>> = Vec::new();
    objects.push(image);
    objects.push(content);
    objects.push(pages);
    objects.push(page);
    objects.push(catalog);
    assert(blobs(objects@) == image_objects(width as nat, height as nat, jpeg@));
    assemble(&objects)
}

} // verus!
