//! The pairing QR code as a matrix of dark and light modules.

use vstd::prelude::*;
use qrcodegen::{DataTooLong, QrCode, QrCodeEcc};
use crate::text::push_str;

verus! {

#[verifier::external_type_specification]
#[verifier::external_body]
pub struct ExQrCode(QrCode);

#[verifier::external_type_specification]
#[verifier::external_body]
pub struct ExDataTooLong(DataTooLong);

/// The QR code, at medium error correction, of a text, or the error that
/// says why the text does not fit any QR version.
pub uninterp spec fn qr_encoding(text: Seq<char>) -> Result<QrCode, DataTooLong>;

/// The side length of a QR code, in modules.
pub uninterp spec fn qr_code_size(code: QrCode) -> int;

/// Whether the module at column `x`, row `y` of a QR code is dark.
pub uninterp spec fn qr_code_module(code: QrCode, x: int, y: int) -> bool;

/// The `{:?}` text of an encoding error.
pub uninterp spec fn qr_error_debug(error: DataTooLong) -> Seq<char>;

/// `QrCode::encode_text` with `QrCodeEcc::Medium`: the QR code of `text`,
/// or the error when the text is too long for any version.
#[verifier::external_body]
fn encode_text_medium(text: &str) -> (result: Result<QrCode, DataTooLong>)
    ensures
        result == qr_encoding(text@),
{
    QrCode::encode_text(text, QrCodeEcc::Medium)
}

/// `QrCode::size`: the side length, which the crate documents as 21 to 177.
#[verifier::external_body]
fn qr_size(code: &QrCode) -> (size: i32)
    ensures
        size == qr_code_size(*code),
        21 <= size <= 177,
{
    code.size()
}

/// `QrCode::get_module`: whether a module is dark; out of range it is light.
#[verifier::external_body]
fn qr_get_module(code: &QrCode, x: i32, y: i32) -> (dark: bool)
    ensures
        dark == qr_code_module(*code, x as int, y as int),
        !(0 <= x < qr_code_size(*code) && 0 <= y < qr_code_size(*code)) ==> !dark,
{
    code.get_module(x, y)
}

/// `Debug` of `DataTooLong`.
#[verifier::external_body]
fn data_too_long_debug(error: &DataTooLong) -> (text: String)
    ensures
        text@ == qr_error_debug(*error),
{
    format!("{error:?}")
}

/// `result` is what encoding `payload` gives: the matrix of its QR code, row
/// by row, or the encoder's error.
pub open spec fn qr_matrix_of(payload: Seq<char>, result: Result<QrMatrix, String>) -> bool {
    match qr_encoding(payload) {
        Ok(code) => result matches Ok(m) && {
            &&& m.wf()
            &&& m.spec_size() == qr_code_size(code)
            &&& 21 <= m.spec_size() <= 177
            &&& m.spec_modules().len() == m.spec_size() * m.spec_size()
            &&& forall|x: int, y: int| 0 <= x < m.spec_size() && 0 <= y < m.spec_size()
                ==> m.spec_modules()[y * m.spec_size() + x] == qr_code_module(code, x, y)
        },
        Err(e) => result matches Err(m) && m@ == "QR encoding failed: "@ + qr_error_debug(e),
    }
}

/// A QR matrix independent of any graphics object.
#[derive(Clone, Debug)]
pub struct QrMatrix {
    size: i32,
    modules: Vec<bool>,
}

impl QrMatrix {
    /// A square matrix of a QR code's size.
    pub closed spec fn wf(&self) -> bool {
        21 <= self.size <= 177 && self.modules@.len() == self.size * self.size
    }

    pub closed spec fn spec_size(&self) -> int {
        self.size as int
    }

    /// Modules row by row: the module at column `x`, row `y` is at `y * size + x`.
    pub closed spec fn spec_modules(&self) -> Seq<bool> {
        self.modules@
    }

    /// Encodes a compact pairing URI with enough error correction for a desktop display.
    pub fn encode(payload: &str) -> (result: Result<QrMatrix, String>)
        ensures
            qr_matrix_of(payload@, result),
    {
        let code = match encode_text_medium(payload) {
            Ok(code) => code,
            Err(error) => {
                let mut text = String::new();
                push_str(&mut text, "QR encoding failed: ");
                let detail = data_too_long_debug(&error);
                push_str(&mut text, detail.as_str());
                assert(text@ =~= "QR encoding failed: "@ + qr_error_debug(error));
                return Err(text);
            },
        };
        let size = qr_size(&code);
        let mut modules: Vec<bool> = Vec::new();
        let mut y: i32 = 0;
        while y < size
            invariant
                21 <= size <= 177,
                size == qr_code_size(code),
                0 <= y <= size,
                modules@.len() == y * size,
                forall|x: int, yy: int| 0 <= x < size && 0 <= yy < y ==> #[trigger] modules@[yy * size + x]
                    == qr_code_module(code, x, yy),
            decreases size - y,
        {
            let mut x: i32 = 0;
            let ghost row_start = modules@.len();
            while x < size
                invariant
                    21 <= size <= 177,
                    size == qr_code_size(code),
                    0 <= y < size,
                    0 <= x <= size,
                    row_start == y * size,
                    modules@.len() == row_start + x,
                    forall|xx: int, yy: int| 0 <= xx < size && 0 <= yy < y ==> #[trigger] modules@[yy * size + xx]
                        == qr_code_module(code, xx, yy),
                    forall|xx: int| 0 <= xx < x ==> #[trigger] modules@[row_start + xx] == qr_code_module(code, xx, y as int),
                decreases size - x,
            {
                let ghost before = modules@;
                modules.push(qr_get_module(&code, x, y));
                proof {
                    assert forall|xx: int, yy: int| 0 <= xx < size && 0 <= yy < y implies #[trigger] modules@[yy * size + xx]
                        == qr_code_module(code, xx, yy) by {
                        assert(yy * size + xx < y * size) by (nonlinear_arith)
                            requires
                                0 <= xx < size,
                                0 <= yy < y,
                        ;
                        assert(modules@[yy * size + xx] == before[yy * size + xx]);
                    }
                }
                x += 1;
            }
            proof {
                assert forall|xx: int, yy: int| 0 <= xx < size && 0 <= yy < y + 1 implies #[trigger] modules@[yy * size + xx]
                    == qr_code_module(code, xx, yy) by {
                    if yy == y {
                        assert(modules@[row_start + xx] == qr_code_module(code, xx, y as int));
                    }
                }
                assert(modules@.len() == (y + 1) * size) by (nonlinear_arith)
                    requires
                        modules@.len() == y * size + size,
                ;
            }
            y += 1;
        }
        Ok(QrMatrix { size, modules })
    }

    pub fn size(&self) -> (size: i32)
        ensures
            size == self.spec_size(),
            self.wf() ==> 21 <= size <= 177 && self.spec_modules().len() == size * size,
    {
        self.size
    }

    /// Whether the module at column `x`, row `y` is dark.
    pub fn is_dark(&self, x: i32, y: i32) -> (dark: bool)
        requires
            self.wf(),
            0 <= y * self.spec_size() + x < self.spec_modules().len(),
            i32::MIN <= y * self.spec_size() <= i32::MAX,
        ensures
            dark == self.spec_modules()[y * self.spec_size() + x],
    {
        assert(self.size * self.size <= 177 * 177) by (nonlinear_arith)
            requires
                21 <= self.size <= 177,
        ;
        let row = y * self.size;
        let index = row + x;
        self.modules[index as usize]
    }
}

} // verus!
