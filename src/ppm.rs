use vstd::prelude::*;

verus! {

/// The largest value a colour channel can take in the output.
pub const MAX_CHANNEL: i32 = 255;

/// One output pixel: three channels, each in `[0, 255]`.
#[derive(Clone, Copy, Debug, PartialEq, Eq, Structural)]
pub struct Rgb {
    pub r: u8,
    pub g: u8,
    pub b: u8,
}

/// `v` clamped into `[lo, hi]`.
pub open spec fn clamp_int(v: int, lo: int, hi: int) -> int {
    if v < lo {
        lo
    } else if v > hi {
        hi
    } else {
        v
    }
}

/// The ASCII decimal digits of `n`, most significant first, without leading zeros.
pub open spec fn decimal(n: nat) -> Seq<u8>
    decreases n,
{
    if n < 10 {
        seq![(48 + n) as u8]
    } else {
        decimal(n / 10).push((48 + n % 10) as u8)
    }
}

/// The header of the image: the magic line, the size line and the largest channel value.
pub open spec fn header_bytes(width: nat, height: nat) -> Seq<u8> {
    seq![80u8, 51u8, 10u8] + decimal(width) + seq![32u8] + decimal(height) + seq![
        10u8,
        50u8,
        53u8,
        53u8,
        10u8,
    ]
}

/// The line of one pixel: its three channels, separated by spaces, then a newline.
pub open spec fn pixel_bytes(p: Rgb) -> Seq<u8> {
    decimal(p.r as nat) + seq![32u8] + decimal(p.g as nat) + seq![32u8] + decimal(p.b as nat)
        + seq![10u8]
}

/// The lines of a sequence of pixels, in the order given.
pub open spec fn body_bytes(pixels: Seq<Rgb>) -> Seq<u8>
    decreases pixels.len(),
{
    if pixels.len() == 0 {
        Seq::empty()
    } else {
        body_bytes(pixels.drop_last()) + pixel_bytes(pixels.last())
    }
}

/// The whole text of an image whose pixels, in output order, are `pixels`.
pub open spec fn image_bytes(width: nat, height: nat, pixels: Seq<Rgb>) -> Seq<u8> {
    header_bytes(width, height) + body_bytes(pixels)
}

/// How many times `c` occurs in `s`.
pub open spec fn count_byte(s: Seq<u8>, c: u8) -> nat
    decreases s.len(),
{
    if s.len() == 0 {
        0
    } else {
        count_byte(s.drop_last(), c) + if s.last() == c {
            1nat
        } else {
            0nat
        }
    }
}

/// Counting a byte over two pieces adds the counts of each.
pub proof fn lemma_count_concat(a: Seq<u8>, b: Seq<u8>, c: u8)
    ensures
        count_byte(a + b, c) == count_byte(a, c) + count_byte(b, c),
    decreases b.len(),
{
    if b.len() > 0 {
        lemma_count_concat(a, b.drop_last(), c);
        assert((a + b).drop_last() =~= a + b.drop_last());
    }
}

/// The digits of a number hold no newline.
pub proof fn lemma_decimal_has_no_newline(n: nat)
    ensures
        count_byte(decimal(n), 10u8) == 0,
    decreases n,
{
    if n >= 10 {
        lemma_decimal_has_no_newline(n / 10);
        let d = decimal(n / 10).push((48 + n % 10) as u8);
        assert(d.drop_last() =~= decimal(n / 10));
        assert(d.last() != 10u8);
    } else {
        reveal_with_fuel(count_byte, 2);
        assert(seq![(48 + n) as u8].drop_last() =~= Seq::<u8>::empty());
    }
}

/// Each pixel takes exactly one line of the text: the lines of `pixels`
/// hold as many newlines as there are pixels, and the header holds three.
pub proof fn lemma_one_line_per_pixel(width: nat, height: nat, pixels: Seq<Rgb>)
    ensures
        count_byte(body_bytes(pixels), 10u8) == pixels.len(),
        count_byte(header_bytes(width, height), 10u8) == 3,
        count_byte(image_bytes(width, height, pixels), 10u8) == pixels.len() + 3,
    decreases pixels.len(),
{
    lemma_header_lines(width, height);
    if pixels.len() > 0 {
        lemma_one_line_per_pixel(width, height, pixels.drop_last());
        lemma_pixel_line(pixels.last());
        lemma_count_concat(body_bytes(pixels.drop_last()), pixel_bytes(pixels.last()), 10u8);
    }
    lemma_count_concat(header_bytes(width, height), body_bytes(pixels), 10u8);
}

proof fn lemma_pixel_line(p: Rgb)
    ensures
        count_byte(pixel_bytes(p), 10u8) == 1,
{
    let sp = seq![32u8];
    let nl = seq![10u8];
    lemma_decimal_has_no_newline(p.r as nat);
    lemma_decimal_has_no_newline(p.g as nat);
    lemma_decimal_has_no_newline(p.b as nat);
    assert(count_byte(sp, 10u8) == 0) by {
        reveal_with_fuel(count_byte, 2);
        assert(sp.drop_last() =~= Seq::<u8>::empty());
    }
    assert(count_byte(nl, 10u8) == 1) by {
        reveal_with_fuel(count_byte, 2);
        assert(nl.drop_last() =~= Seq::<u8>::empty());
    }
    let a = decimal(p.r as nat) + sp;
    let b = a + decimal(p.g as nat);
    let c = b + sp;
    let d = c + decimal(p.b as nat);
    lemma_count_concat(decimal(p.r as nat), sp, 10u8);
    lemma_count_concat(a, decimal(p.g as nat), 10u8);
    lemma_count_concat(b, sp, 10u8);
    lemma_count_concat(c, decimal(p.b as nat), 10u8);
    lemma_count_concat(d, nl, 10u8);
}

proof fn lemma_header_lines(width: nat, height: nat)
    ensures
        count_byte(header_bytes(width, height), 10u8) == 3,
{
    let magic = seq![80u8, 51u8, 10u8];
    let sp = seq![32u8];
    let tail = seq![10u8, 50u8, 53u8, 53u8, 10u8];
    lemma_decimal_has_no_newline(width);
    lemma_decimal_has_no_newline(height);
    assert(count_byte(sp, 10u8) == 0) by {
        reveal_with_fuel(count_byte, 2);
        assert(sp.drop_last() =~= Seq::<u8>::empty());
    }
    assert(count_byte(magic, 10u8) == 1) by {
        reveal_with_fuel(count_byte, 4);
        let m2 = magic.drop_last();
        let m1 = m2.drop_last();
        assert(m1.drop_last() =~= Seq::<u8>::empty());
        assert(m2 =~= seq![80u8, 51u8]);
        assert(m1 =~= seq![80u8]);
    }
    assert(count_byte(tail, 10u8) == 2) by {
        reveal_with_fuel(count_byte, 6);
        let t4 = tail.drop_last();
        let t3 = t4.drop_last();
        let t2 = t3.drop_last();
        let t1 = t2.drop_last();
        assert(t4 =~= seq![10u8, 50u8, 53u8, 53u8]);
        assert(t3 =~= seq![10u8, 50u8, 53u8]);
        assert(t2 =~= seq![10u8, 50u8]);
        assert(t1 =~= seq![10u8]);
        assert(t1.drop_last() =~= Seq::<u8>::empty());
    }
    let a = magic + decimal(width);
    let b = a + sp;
    let c = b + decimal(height);
    lemma_count_concat(magic, decimal(width), 10u8);
    lemma_count_concat(a, sp, 10u8);
    lemma_count_concat(b, decimal(height), 10u8);
    lemma_count_concat(c, tail, 10u8);
}

/// A finished image of `width` by `height` pixels starts with its header and
/// holds, after the header's three lines, exactly one line per pixel: the
/// text of a complete writer has `width * height + 3` newlines.
pub proof fn lemma_complete_image(w: PpmWriter)
    requires
        w.wf(),
        w.pixels().len() == w.spec_width() * w.spec_height(),
    ensures
        w.text() == header_bytes(w.spec_width(), w.spec_height()) + body_bytes(w.pixels()),
        count_byte(w.text(), 10u8) == w.spec_width() * w.spec_height() + 3,
{
    lemma_one_line_per_pixel(w.spec_width(), w.spec_height(), w.pixels());
}

/// Turns a channel that has already been gamma corrected, scaled by 256 and
/// truncated into the byte written to the image: values below zero become 0
/// and values above 255 become 255.
pub fn channel_byte(scaled: i32) -> (r: u8)
    ensures
        r as int == clamp_int(scaled as int, 0, MAX_CHANNEL as int),
{
    if scaled < 0 {
        0
    } else if scaled > MAX_CHANNEL {
        255
    } else {
        scaled as u8
    }
}

/// Appends the decimal digits of `n` to `out`.
pub fn push_decimal(out: &mut Vec<u8>, n: u32)
    ensures
        final(out)@ == old(out)@ + decimal(n as nat),
    decreases n,
{
    if n >= 10 {
        push_decimal(out, n / 10);
    }
    let digit: u8 = (n % 10) as u8;
    out.push(48u8 + digit);
    proof {
        assert(decimal(n as nat) == if n < 10 {
            seq![(48 + n) as u8]
        } else {
            decimal((n / 10) as nat).push((48 + n % 10) as u8)
        });
    }
    assert(out@ =~= old(out)@ + decimal(n as nat));
}


/// The header of a `width` by `height` image: `P3`, the size, and `255`, one per line.
pub fn header(width: u32, height: u32) -> (r: Vec<u8>)
    ensures
        r@ == header_bytes(width as nat, height as nat),
{
    let mut out: Vec<u8> = Vec::new();
    out.push(80u8);
    out.push(51u8);
    out.push(10u8);
    push_decimal(&mut out, width);
    out.push(32u8);
    push_decimal(&mut out, height);
    out.push(10u8);
    out.push(50u8);
    out.push(53u8);
    out.push(53u8);
    out.push(10u8);
    assert(out@ =~= header_bytes(width as nat, height as nat));
    out
}

/// Appends the line of one pixel to `out`.
pub fn push_pixel(out: &mut Vec<u8>, p: Rgb)
    ensures
        final(out)@ == old(out)@ + pixel_bytes(p),
{
    push_decimal(out, p.r as u32);
    out.push(32u8);
    push_decimal(out, p.g as u32);
    out.push(32u8);
    push_decimal(out, p.b as u32);
    out.push(10u8);
    assert(out@ =~= old(out)@ + pixel_bytes(p));
}

/// The product of two `u32` values fits in a `u64`.
pub proof fn lemma_u32_product_fits(a: u32, b: u32)
    ensures
        a as nat * b as nat <= u64::MAX as nat,
{
    assert(a as nat * b as nat <= u32::MAX as nat * u32::MAX as nat) by (nonlinear_arith)
        requires
            a <= u32::MAX,
            b <= u32::MAX,
    ;
}

/// The text of an image, built one pixel at a time in output order.
///
/// It always holds the header followed by the lines of the pixels emitted so
/// far, and it accepts no more pixels than the image has.
pub struct PpmWriter {
    bytes: Vec<u8>,
    width: u32,
    height: u32,
    emitted: u64,
    pixels: Ghost<Seq<Rgb>>,
}

impl PpmWriter {
    /// The pixels emitted so far, in order.
    pub closed spec fn pixels(&self) -> Seq<Rgb> {
        self.pixels@
    }

    pub closed spec fn spec_width(&self) -> nat {
        self.width as nat
    }

    pub closed spec fn spec_height(&self) -> nat {
        self.height as nat
    }

    /// The text written so far.
    pub closed spec fn text(&self) -> Seq<u8> {
        self.bytes@
    }

    pub closed spec fn wf(&self) -> bool {
        &&& self.emitted as nat == self.pixels@.len()
        &&& self.pixels@.len() <= self.width as nat * self.height as nat
        &&& self.bytes@ == image_bytes(self.width as nat, self.height as nat, self.pixels@)
    }

    /// A writer for a `width` by `height` image that holds the header and no pixel.
    pub fn new(width: u32, height: u32) -> (r: PpmWriter)
        ensures
            r.wf(),
            r.spec_width() == width as nat,
            r.spec_height() == height as nat,
            r.pixels() == Seq::<Rgb>::empty(),
            r.text() == header_bytes(width as nat, height as nat),
    {
        let bytes = header(width, height);
        let w = PpmWriter { bytes, width, height, emitted: 0, pixels: Ghost(Seq::empty()) };
        assert(w.bytes@ =~= image_bytes(width as nat, height as nat, Seq::empty()));
        w
    }

    /// Whether every pixel of the image has been emitted.
    pub fn is_complete(&self) -> (r: bool)
        requires
            self.wf(),
        ensures
            r == (self.pixels().len() == self.spec_width() * self.spec_height()),
    {
        proof {
            lemma_u32_product_fits(self.width, self.height);
        }
        self.emitted == (self.width as u64) * (self.height as u64)
    }

    /// Emits the next pixel: its line is appended to the text.
    pub fn emit(&mut self, p: Rgb)
        requires
            old(self).wf(),
            old(self).pixels().len() < old(self).spec_width() * old(self).spec_height(),
        ensures
            final(self).wf(),
            final(self).spec_width() == old(self).spec_width(),
            final(self).spec_height() == old(self).spec_height(),
            final(self).pixels() == old(self).pixels().push(p),
            final(self).text() == old(self).text() + pixel_bytes(p),
    {
        let ghost before = self.pixels@;
        proof {
            lemma_u32_product_fits(self.width, self.height);
        }
        push_pixel(&mut self.bytes, p);
        self.emitted = self.emitted + 1;
        self.pixels = Ghost(before.push(p));
        assert(before.push(p).drop_last() =~= before);
        assert(self.bytes@ =~= image_bytes(self.width as nat, self.height as nat, self.pixels@));
    }

    /// The text written so far.
    pub fn as_bytes(&self) -> (r: &Vec<u8>)
        ensures
            r@ == self.text(),
    {
        &self.bytes
    }

    /// Gives up the writer and returns its text.
    pub fn into_bytes(self) -> (r: Vec<u8>)
        ensures
            r@ == self.text(),
    {
        self.bytes
    }
}

} // verus!
