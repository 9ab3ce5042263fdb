//! Colours, their perceived brightness, and the choice of a secondary colour
//! that stays legible on a primary one.
//!
//! Brightness is computed in exact integer arithmetic. A channel's linear
//! value is the sRGB transfer function of `c / 255`, rounded to twelve decimal
//! places and held as a count of `10^-12`; luminance weights the three
//! channels by 2126, 7152 and 722 parts in ten thousand and is therefore a
//! count of `10^-16`.

use vstd::prelude::*;
use crate::error::{Error, ErrorView};
use crate::text::chars_of;

verus! {

/// A colour by its red, green and blue channel.
#[derive(Clone, Copy, Debug, PartialEq, Eq, Hash, Structural)]
pub struct Color {
    pub r: u8,
    pub g: u8,
    pub b: u8,
}

/// The colour with the three channels of `rgb`.
pub fn new_color(rgb: (u8, u8, u8)) -> (c: Color)
    ensures
        c == (Color { r: rgb.0, g: rgb.1, b: rgb.2 }),
{
    let (r, g, b) = rgb;
    Color { r, g, b }
}

/// Pure black.
pub open spec fn spec_black() -> Color {
    Color { r: 0, g: 0, b: 0 }
}

/// Pure white.
pub open spec fn spec_white() -> Color {
    Color { r: 255, g: 255, b: 255 }
}

/// Pure black.
#[verifier::when_used_as_spec(spec_black)]
pub fn black() -> (c: Color)
    ensures
        c == spec_black(),
{
    Color { r: 0, g: 0, b: 0 }
}

/// Pure white.
#[verifier::when_used_as_spec(spec_white)]
pub fn white() -> (c: Color)
    ensures
        c == spec_white(),
{
    Color { r: 255, g: 255, b: 255 }
}

/// The value of a hexadecimal digit, in either case.
pub open spec fn hex_value(c: char) -> Option<nat> {
    if c == '0' {
        Some(0)
    } else if c == '1' {
        Some(1)
    } else if c == '2' {
        Some(2)
    } else if c == '3' {
        Some(3)
    } else if c == '4' {
        Some(4)
    } else if c == '5' {
        Some(5)
    } else if c == '6' {
        Some(6)
    } else if c == '7' {
        Some(7)
    } else if c == '8' {
        Some(8)
    } else if c == '9' {
        Some(9)
    } else if c == 'a' || c == 'A' {
        Some(10)
    } else if c == 'b' || c == 'B' {
        Some(11)
    } else if c == 'c' || c == 'C' {
        Some(12)
    } else if c == 'd' || c == 'D' {
        Some(13)
    } else if c == 'e' || c == 'E' {
        Some(14)
    } else if c == 'f' || c == 'F' {
        Some(15)
    } else {
        None
    }
}

/// The byte that two hexadecimal digits write.
pub open spec fn hex_pair(high: char, low: char) -> Option<u8> {
    match (hex_value(high), hex_value(low)) {
        (Some(h), Some(l)) => Some((h * 16 + l) as u8),
        _ => None,
    }
}

/// The colour that the first six characters of `s` write as three
/// hexadecimal pairs: red, green, blue. What follows them is not read.
pub open spec fn hex_color(s: Seq<char>) -> Option<Color> {
    if s.len() < 6 {
        None
    } else {
        match (hex_pair(s[0], s[1]), hex_pair(s[2], s[3]), hex_pair(s[4], s[5])) {
            (Some(r), Some(g), Some(b)) => Some(Color { r, g, b }),
            _ => None,
        }
    }
}

fn hex_digit(c: char) -> (r: Option<u8>)
    ensures
        match r {
            Some(v) => hex_value(c) == Some(v as nat) && v < 16,
            None => hex_value(c) is None,
        },
{
    if c == '0' {
        Some(0)
    } else if c == '1' {
        Some(1)
    } else if c == '2' {
        Some(2)
    } else if c == '3' {
        Some(3)
    } else if c == '4' {
        Some(4)
    } else if c == '5' {
        Some(5)
    } else if c == '6' {
        Some(6)
    } else if c == '7' {
        Some(7)
    } else if c == '8' {
        Some(8)
    } else if c == '9' {
        Some(9)
    } else if c == 'a' || c == 'A' {
        Some(10)
    } else if c == 'b' || c == 'B' {
        Some(11)
    } else if c == 'c' || c == 'C' {
        Some(12)
    } else if c == 'd' || c == 'D' {
        Some(13)
    } else if c == 'e' || c == 'E' {
        Some(14)
    } else if c == 'f' || c == 'F' {
        Some(15)
    } else {
        None
    }
}

fn hex_byte(high: char, low: char) -> (r: Option<u8>)
    ensures
        r == hex_pair(high, low),
{
    match (hex_digit(high), hex_digit(low)) {
        (Some(h), Some(l)) => Some(h * 16 + l),
        _ => None,
    }
}

/// Reads a colour from six hexadecimal digits. A text that does not start
/// with six such digits is refused, with the text as the error's message.
pub fn get_rgb_from_hex(color: &str) -> (r: Result<Color, Error>)
    ensures
        match hex_color(color@) {
            Some(c) => r matches Ok(got) && got == c,
            None => r matches Err(e) && e@ == ErrorView::IntegerParseError(color@),
        },
{
    let cs = chars_of(color);
    if cs.len() < 6 {
        return Err(Error::IntegerParseError(color.to_owned()));
    }
    match (hex_byte(cs[0], cs[1]), hex_byte(cs[2], cs[3]), hex_byte(cs[4], cs[5])) {
        (Some(r), Some(g), Some(b)) => Ok(new_color((r, g, b))),
        _ => Err(Error::IntegerParseError(color.to_owned())),
    }
}

/// One in units of a channel's linear value.
pub const LINEAR_ONE: u64 = 1_000_000_000_000;

/// One in units of luminance.
pub const LUMINANCE_ONE: u64 = 10_000_000_000_000_000;

/// The constant 0.05 that the contrast ratio adds to each luminance.
pub const CONTRAST_OFFSET: u64 = 500_000_000_000_000;

/// The linear value of a channel: `(c / 255) / 12.92` for the ten darkest
/// steps, `(((c / 255) + 0.055) / 1.055) ^ 2.4` above them, in units of
/// `10^-12`.
pub open spec fn linear_channel(c: u8) -> nat {
    match c {
        0 => 0,
        1 => 303526984,
        2 => 607053967,
        3 => 910580951,
        4 => 1214107934,
        5 => 1517634918,
        6 => 1821161901,
        7 => 2124688885,
        8 => 2428215868,
        9 => 2731742852,
        10 => 3035269835,
        11 => 3346535764,
        12 => 3676507324,
        13 => 4024717018,
        14 => 4391442037,
        15 => 4776953481,
        16 => 5181516702,
        17 => 5605391624,
        18 => 6048833023,
        19 => 6512090793,
        20 => 6995410187,
        21 => 7499032043,
        22 => 8023192985,
        23 => 8568125618,
        24 => 9134058702,
        25 => 9721217320,
        26 => 10329823030,
        27 => 10960094006,
        28 => 11612245180,
        29 => 12286488357,
        30 => 12983032342,
        31 => 13702083047,
        32 => 14443843596,
        33 => 15208514423,
        34 => 15996293366,
        35 => 16807375753,
        36 => 17641954488,
        37 => 18500220128,
        38 => 19382360957,
        39 => 20288563057,
        40 => 21219010376,
        41 => 22173884793,
        42 => 23153366178,
        43 => 24157632449,
        44 => 25186859627,
        45 => 26241221895,
        46 => 27320891639,
        47 => 28426039504,
        48 => 29556834438,
        49 => 30713443733,
        50 => 31896033073,
        51 => 33104766571,
        52 => 34339806809,
        53 => 35601314875,
        54 => 36889450401,
        55 => 38204371595,
        56 => 39546235277,
        57 => 40915196907,
        58 => 42311410621,
        59 => 43735029257,
        60 => 45186204386,
        61 => 46665086337,
        62 => 48171824227,
        63 => 49706565984,
        64 => 51269458374,
        65 => 52860647023,
        66 => 54480276442,
        67 => 56128490050,
        68 => 57805430191,
        69 => 59511238163,
        70 => 61246054232,
        71 => 63010017653,
        72 => 64803266693,
        73 => 66625938644,
        74 => 68478169844,
        75 => 70360095697,
        76 => 72271850682,
        77 => 74213568380,
        78 => 76185381481,
        79 => 78187421805,
        80 => 80219820314,
        81 => 82282707130,
        82 => 84376211544,
        83 => 86500462037,
        84 => 88655586286,
        85 => 90841711183,
        86 => 93058962847,
        87 => 95307466631,
        88 => 97587347142,
        89 => 99898728247,
        90 => 102241733088,
        91 => 104616484091,
        92 => 107023102978,
        93 => 109461710778,
        94 => 111932427837,
        95 => 114435373827,
        96 => 116970667759,
        97 => 119538427988,
        98 => 122138772230,
        99 => 124771817561,
        100 => 127437680436,
        101 => 130136476690,
        102 => 132868321554,
        103 => 135633329655,
        104 => 138431615032,
        105 => 141263291140,
        106 => 144128470858,
        107 => 147027266498,
        108 => 149959789811,
        109 => 152926151996,
        110 => 155926463708,
        111 => 158960835061,
        112 => 162029375639,
        113 => 165132194502,
        114 => 168269400190,
        115 => 171441100733,
        116 => 174647403656,
        117 => 177888415984,
        118 => 181164244250,
        119 => 184474994500,
        120 => 187820772301,
        121 => 191201682741,
        122 => 194617830442,
        123 => 198069319560,
        124 => 201556253794,
        125 => 205078736390,
        126 => 208636870145,
        127 => 212230757414,
        128 => 215860500114,
        129 => 219526199729,
        130 => 223227957317,
        131 => 226965873510,
        132 => 230740048524,
        133 => 234550582161,
        134 => 238397573812,
        135 => 242281122466,
        136 => 246201326708,
        137 => 250158284730,
        138 => 254152094331,
        139 => 258182852922,
        140 => 262250657530,
        141 => 266355604803,
        142 => 270497791013,
        143 => 274677312060,
        144 => 278894263477,
        145 => 283148740430,
        146 => 287440837727,
        147 => 291770649818,
        148 => 296138270798,
        149 => 300543794416,
        150 => 304987314070,
        151 => 309468922818,
        152 => 313988713376,
        153 => 318546778125,
        154 => 323143209113,
        155 => 327778098057,
        156 => 332451536346,
        157 => 337163615048,
        158 => 341914424909,
        159 => 346704056355,
        160 => 351532599500,
        161 => 356400144146,
        162 => 361306779784,
        163 => 366252595599,
        164 => 371237680474,
        165 => 376262122991,
        166 => 381326011433,
        167 => 386429433787,
        168 => 391572477750,
        169 => 396755230726,
        170 => 401977779832,
        171 => 407240211902,
        172 => 412542613484,
        173 => 417885070848,
        174 => 423267669986,
        175 => 428690496614,
        176 => 434153636175,
        177 => 439657173841,
        178 => 445201194516,
        179 => 450785782838,
        180 => 456411023180,
        181 => 462076999654,
        182 => 467783796112,
        183 => 473531496148,
        184 => 479320183101,
        185 => 485149940056,
        186 => 491020849848,
        187 => 496932995061,
        188 => 502886458033,
        189 => 508881320855,
        190 => 514917665377,
        191 => 520995573204,
        192 => 527115125706,
        193 => 533276404011,
        194 => 539479489012,
        195 => 545724461370,
        196 => 552011401512,
        197 => 558340389634,
        198 => 564711505705,
        199 => 571124829465,
        200 => 577580440430,
        201 => 584078417891,
        202 => 590618840919,
        203 => 597201788364,
        204 => 603827338855,
        205 => 610495570808,
        206 => 617206562420,
        207 => 623960391675,
        208 => 630757136346,
        209 => 637596873994,
        210 => 644479681971,
        211 => 651405637420,
        212 => 658374817279,
        213 => 665387298282,
        214 => 672443156958,
        215 => 679542469633,
        216 => 686685312435,
        217 => 693871761292,
        218 => 701101891933,
        219 => 708375779892,
        220 => 715693500506,
        221 => 723055128922,
        222 => 730460740090,
        223 => 737910408773,
        224 => 745404209540,
        225 => 752942216776,
        226 => 760524504675,
        227 => 768151147248,
        228 => 775822218317,
        229 => 783537791526,
        230 => 791297940333,
        231 => 799102738014,
        232 => 806952257669,
        233 => 814846572216,
        234 => 822785754396,
        235 => 830769876775,
        236 => 838799011741,
        237 => 846873231510,
        238 => 854992608124,
        239 => 863157213454,
        240 => 871367119199,
        241 => 879622396888,
        242 => 887923117882,
        243 => 896269353374,
        244 => 904661174391,
        245 => 913098651793,
        246 => 921581856277,
        247 => 930110858375,
        248 => 938685728458,
        249 => 947306536733,
        250 => 955973353249,
        251 => 964686247894,
        252 => 973445290398,
        253 => 982250550333,
        254 => 991102097114,
        _ => 1000000000000,
    }
}

/// The linear value of a channel.
pub fn linear_value(c: u8) -> (r: u64)
    ensures
        r == linear_channel(c),
        r <= LINEAR_ONE,
{
    match c {
        0 => 0,
        1 => 303526984,
        2 => 607053967,
        3 => 910580951,
        4 => 1214107934,
        5 => 1517634918,
        6 => 1821161901,
        7 => 2124688885,
        8 => 2428215868,
        9 => 2731742852,
        10 => 3035269835,
        11 => 3346535764,
        12 => 3676507324,
        13 => 4024717018,
        14 => 4391442037,
        15 => 4776953481,
        16 => 5181516702,
        17 => 5605391624,
        18 => 6048833023,
        19 => 6512090793,
        20 => 6995410187,
        21 => 7499032043,
        22 => 8023192985,
        23 => 8568125618,
        24 => 9134058702,
        25 => 9721217320,
        26 => 10329823030,
        27 => 10960094006,
        28 => 11612245180,
        29 => 12286488357,
        30 => 12983032342,
        31 => 13702083047,
        32 => 14443843596,
        33 => 15208514423,
        34 => 15996293366,
        35 => 16807375753,
        36 => 17641954488,
        37 => 18500220128,
        38 => 19382360957,
        39 => 20288563057,
        40 => 21219010376,
        41 => 22173884793,
        42 => 23153366178,
        43 => 24157632449,
        44 => 25186859627,
        45 => 26241221895,
        46 => 27320891639,
        47 => 28426039504,
        48 => 29556834438,
        49 => 30713443733,
        50 => 31896033073,
        51 => 33104766571,
        52 => 34339806809,
        53 => 35601314875,
        54 => 36889450401,
        55 => 38204371595,
        56 => 39546235277,
        57 => 40915196907,
        58 => 42311410621,
        59 => 43735029257,
        60 => 45186204386,
        61 => 46665086337,
        62 => 48171824227,
        63 => 49706565984,
        64 => 51269458374,
        65 => 52860647023,
        66 => 54480276442,
        67 => 56128490050,
        68 => 57805430191,
        69 => 59511238163,
        70 => 61246054232,
        71 => 63010017653,
        72 => 64803266693,
        73 => 66625938644,
        74 => 68478169844,
        75 => 70360095697,
        76 => 72271850682,
        77 => 74213568380,
        78 => 76185381481,
        79 => 78187421805,
        80 => 80219820314,
        81 => 82282707130,
        82 => 84376211544,
        83 => 86500462037,
        84 => 88655586286,
        85 => 90841711183,
        86 => 93058962847,
        87 => 95307466631,
        88 => 97587347142,
        89 => 99898728247,
        90 => 102241733088,
        91 => 104616484091,
        92 => 107023102978,
        93 => 109461710778,
        94 => 111932427837,
        95 => 114435373827,
        96 => 116970667759,
        97 => 119538427988,
        98 => 122138772230,
        99 => 124771817561,
        100 => 127437680436,
        101 => 130136476690,
        102 => 132868321554,
        103 => 135633329655,
        104 => 138431615032,
        105 => 141263291140,
        106 => 144128470858,
        107 => 147027266498,
        108 => 149959789811,
        109 => 152926151996,
        110 => 155926463708,
        111 => 158960835061,
        112 => 162029375639,
        113 => 165132194502,
        114 => 168269400190,
        115 => 171441100733,
        116 => 174647403656,
        117 => 177888415984,
        118 => 181164244250,
        119 => 184474994500,
        120 => 187820772301,
        121 => 191201682741,
        122 => 194617830442,
        123 => 198069319560,
        124 => 201556253794,
        125 => 205078736390,
        126 => 208636870145,
        127 => 212230757414,
        128 => 215860500114,
        129 => 219526199729,
        130 => 223227957317,
        131 => 226965873510,
        132 => 230740048524,
        133 => 234550582161,
        134 => 238397573812,
        135 => 242281122466,
        136 => 246201326708,
        137 => 250158284730,
        138 => 254152094331,
        139 => 258182852922,
        140 => 262250657530,
        141 => 266355604803,
        142 => 270497791013,
        143 => 274677312060,
        144 => 278894263477,
        145 => 283148740430,
        146 => 287440837727,
        147 => 291770649818,
        148 => 296138270798,
        149 => 300543794416,
        150 => 304987314070,
        151 => 309468922818,
        152 => 313988713376,
        153 => 318546778125,
        154 => 323143209113,
        155 => 327778098057,
        156 => 332451536346,
        157 => 337163615048,
        158 => 341914424909,
        159 => 346704056355,
        160 => 351532599500,
        161 => 356400144146,
        162 => 361306779784,
        163 => 366252595599,
        164 => 371237680474,
        165 => 376262122991,
        166 => 381326011433,
        167 => 386429433787,
        168 => 391572477750,
        169 => 396755230726,
        170 => 401977779832,
        171 => 407240211902,
        172 => 412542613484,
        173 => 417885070848,
        174 => 423267669986,
        175 => 428690496614,
        176 => 434153636175,
        177 => 439657173841,
        178 => 445201194516,
        179 => 450785782838,
        180 => 456411023180,
        181 => 462076999654,
        182 => 467783796112,
        183 => 473531496148,
        184 => 479320183101,
        185 => 485149940056,
        186 => 491020849848,
        187 => 496932995061,
        188 => 502886458033,
        189 => 508881320855,
        190 => 514917665377,
        191 => 520995573204,
        192 => 527115125706,
        193 => 533276404011,
        194 => 539479489012,
        195 => 545724461370,
        196 => 552011401512,
        197 => 558340389634,
        198 => 564711505705,
        199 => 571124829465,
        200 => 577580440430,
        201 => 584078417891,
        202 => 590618840919,
        203 => 597201788364,
        204 => 603827338855,
        205 => 610495570808,
        206 => 617206562420,
        207 => 623960391675,
        208 => 630757136346,
        209 => 637596873994,
        210 => 644479681971,
        211 => 651405637420,
        212 => 658374817279,
        213 => 665387298282,
        214 => 672443156958,
        215 => 679542469633,
        216 => 686685312435,
        217 => 693871761292,
        218 => 701101891933,
        219 => 708375779892,
        220 => 715693500506,
        221 => 723055128922,
        222 => 730460740090,
        223 => 737910408773,
        224 => 745404209540,
        225 => 752942216776,
        226 => 760524504675,
        227 => 768151147248,
        228 => 775822218317,
        229 => 783537791526,
        230 => 791297940333,
        231 => 799102738014,
        232 => 806952257669,
        233 => 814846572216,
        234 => 822785754396,
        235 => 830769876775,
        236 => 838799011741,
        237 => 846873231510,
        238 => 854992608124,
        239 => 863157213454,
        240 => 871367119199,
        241 => 879622396888,
        242 => 887923117882,
        243 => 896269353374,
        244 => 904661174391,
        245 => 913098651793,
        246 => 921581856277,
        247 => 930110858375,
        248 => 938685728458,
        249 => 947306536733,
        250 => 955973353249,
        251 => 964686247894,
        252 => 973445290398,
        253 => 982250550333,
        254 => 991102097114,
        _ => 1000000000000,
    }
}

/// The fifth power of `x`.
pub open spec fn fifth_power(x: int) -> int {
    x * x * x * x * x
}

/// The twelfth power of `x`.
pub open spec fn twelfth_power(x: int) -> int {
    let cube = x * x * x;
    let sixth = cube * cube;
    sixth * sixth
}

/// Ten to the sixtieth power.
pub open spec fn ten_to_sixty() -> int {
    1_000_000_000_000_000_000_000_000_000_000_000_000_000_000_000_000_000_000_000_000int
}

/// Whether `value`, a count of `10^-12`, is the linear value of the channel
/// `c` rounded to the nearest unit. With `x = c / 255`, the linear value is
/// `x / 12.92` where `x <= 0.03928`, which is `10 c / 32946`, and
/// `((x + 0.055) / 1.055) ^ 2.4` otherwise, whose fifth power is the
/// twelfth power of `(40 c + 561) / 10761`.
pub open spec fn is_linear_value(c: int, value: int) -> bool {
    if 100_000 * c <= 3928 * 255 {
        &&& 2 * (value * 32946 - c * 10_000_000_000_000) <= 32946
        &&& 2 * (c * 10_000_000_000_000 - value * 32946) <= 32946
    } else {
        &&& fifth_power(2 * value - 1) * twelfth_power(10761) < 32 * twelfth_power(40 * c + 561)
            * ten_to_sixty()
        &&& 32 * twelfth_power(40 * c + 561) * ten_to_sixty() < fifth_power(2 * value + 1)
            * twelfth_power(10761)
    }
}

/// Every entry of the table of linear values is the sRGB transfer function
/// of its channel, rounded to the nearest `10^-12`.
pub proof fn lemma_linear_value_rounds(c: u8)
    ensures
        is_linear_value(c as int, linear_channel(c) as int),
{
    if c == 0 {
        assert(is_linear_value(0, 0));
    }
    if c == 1 {
        assert(is_linear_value(1, 303526984));
    }
    if c == 2 {
        assert(is_linear_value(2, 607053967));
    }
    if c == 3 {
        assert(is_linear_value(3, 910580951));
    }
    if c == 4 {
        assert(is_linear_value(4, 1214107934));
    }
    if c == 5 {
        assert(is_linear_value(5, 1517634918));
    }
    if c == 6 {
        assert(is_linear_value(6, 1821161901));
    }
    if c == 7 {
        assert(is_linear_value(7, 2124688885));
    }
    if c == 8 {
        assert(is_linear_value(8, 2428215868));
    }
    if c == 9 {
        assert(is_linear_value(9, 2731742852));
    }
    if c == 10 {
        assert(is_linear_value(10, 3035269835));
    }
    if c == 11 {
        assert(is_linear_value(11, 3346535764)) by (nonlinear_arith);
    }
    if c == 12 {
        assert(is_linear_value(12, 3676507324)) by (nonlinear_arith);
    }
    if c == 13 {
        assert(is_linear_value(13, 4024717018)) by (nonlinear_arith);
    }
    if c == 14 {
        assert(is_linear_value(14, 4391442037)) by (nonlinear_arith);
    }
    if c == 15 {
        assert(is_linear_value(15, 4776953481)) by (nonlinear_arith);
    }
    if c == 16 {
        assert(is_linear_value(16, 5181516702)) by (nonlinear_arith);
    }
    if c == 17 {
        assert(is_linear_value(17, 5605391624)) by (nonlinear_arith);
    }
    if c == 18 {
        assert(is_linear_value(18, 6048833023)) by (nonlinear_arith);
    }
    if c == 19 {
        assert(is_linear_value(19, 6512090793)) by (nonlinear_arith);
    }
    if c == 20 {
        assert(is_linear_value(20, 6995410187)) by (nonlinear_arith);
    }
    if c == 21 {
        assert(is_linear_value(21, 7499032043)) by (nonlinear_arith);
    }
    if c == 22 {
        assert(is_linear_value(22, 8023192985)) by (nonlinear_arith);
    }
    if c == 23 {
        assert(is_linear_value(23, 8568125618)) by (nonlinear_arith);
    }
    if c == 24 {
        assert(is_linear_value(24, 9134058702)) by (nonlinear_arith);
    }
    if c == 25 {
        assert(is_linear_value(25, 9721217320)) by (nonlinear_arith);
    }
    if c == 26 {
        assert(is_linear_value(26, 10329823030)) by (nonlinear_arith);
    }
    if c == 27 {
        assert(is_linear_value(27, 10960094006)) by (nonlinear_arith);
    }
    if c == 28 {
        assert(is_linear_value(28, 11612245180)) by (nonlinear_arith);
    }
    if c == 29 {
        assert(is_linear_value(29, 12286488357)) by (nonlinear_arith);
    }
    if c == 30 {
        assert(is_linear_value(30, 12983032342)) by (nonlinear_arith);
    }
    if c == 31 {
        assert(is_linear_value(31, 13702083047)) by (nonlinear_arith);
    }
    if c == 32 {
        assert(is_linear_value(32, 14443843596)) by (nonlinear_arith);
    }
    if c == 33 {
        assert(is_linear_value(33, 15208514423)) by (nonlinear_arith);
    }
    if c == 34 {
        assert(is_linear_value(34, 15996293366)) by (nonlinear_arith);
    }
    if c == 35 {
        assert(is_linear_value(35, 16807375753)) by (nonlinear_arith);
    }
    if c == 36 {
        assert(is_linear_value(36, 17641954488)) by (nonlinear_arith);
    }
    if c == 37 {
        assert(is_linear_value(37, 18500220128)) by (nonlinear_arith);
    }
    if c == 38 {
        assert(is_linear_value(38, 19382360957)) by (nonlinear_arith);
    }
    if c == 39 {
        assert(is_linear_value(39, 20288563057)) by (nonlinear_arith);
    }
    if c == 40 {
        assert(is_linear_value(40, 21219010376)) by (nonlinear_arith);
    }
    if c == 41 {
        assert(is_linear_value(41, 22173884793)) by (nonlinear_arith);
    }
    if c == 42 {
        assert(is_linear_value(42, 23153366178)) by (nonlinear_arith);
    }
    if c == 43 {
        assert(is_linear_value(43, 24157632449)) by (nonlinear_arith);
    }
    if c == 44 {
        assert(is_linear_value(44, 25186859627)) by (nonlinear_arith);
    }
    if c == 45 {
        assert(is_linear_value(45, 26241221895)) by (nonlinear_arith);
    }
    if c == 46 {
        assert(is_linear_value(46, 27320891639)) by (nonlinear_arith);
    }
    if c == 47 {
        assert(is_linear_value(47, 28426039504)) by (nonlinear_arith);
    }
    if c == 48 {
        assert(is_linear_value(48, 29556834438)) by (nonlinear_arith);
    }
    if c == 49 {
        assert(is_linear_value(49, 30713443733)) by (nonlinear_arith);
    }
    if c == 50 {
        assert(is_linear_value(50, 31896033073)) by (nonlinear_arith);
    }
    if c == 51 {
        assert(is_linear_value(51, 33104766571)) by (nonlinear_arith);
    }
    if c == 52 {
        assert(is_linear_value(52, 34339806809)) by (nonlinear_arith);
    }
    if c == 53 {
        assert(is_linear_value(53, 35601314875)) by (nonlinear_arith);
    }
    if c == 54 {
        assert(is_linear_value(54, 36889450401)) by (nonlinear_arith);
    }
    if c == 55 {
        assert(is_linear_value(55, 38204371595)) by (nonlinear_arith);
    }
    if c == 56 {
        assert(is_linear_value(56, 39546235277)) by (nonlinear_arith);
    }
    if c == 57 {
        assert(is_linear_value(57, 40915196907)) by (nonlinear_arith);
    }
    if c == 58 {
        assert(is_linear_value(58, 42311410621)) by (nonlinear_arith);
    }
    if c == 59 {
        assert(is_linear_value(59, 43735029257)) by (nonlinear_arith);
    }
    if c == 60 {
        assert(is_linear_value(60, 45186204386)) by (nonlinear_arith);
    }
    if c == 61 {
        assert(is_linear_value(61, 46665086337)) by (nonlinear_arith);
    }
    if c == 62 {
        assert(is_linear_value(62, 48171824227)) by (nonlinear_arith);
    }
    if c == 63 {
        assert(is_linear_value(63, 49706565984)) by (nonlinear_arith);
    }
    if c == 64 {
        assert(is_linear_value(64, 51269458374)) by (nonlinear_arith);
    }
    if c == 65 {
        assert(is_linear_value(65, 52860647023)) by (nonlinear_arith);
    }
    if c == 66 {
        assert(is_linear_value(66, 54480276442)) by (nonlinear_arith);
    }
    if c == 67 {
        assert(is_linear_value(67, 56128490050)) by (nonlinear_arith);
    }
    if c == 68 {
        assert(is_linear_value(68, 57805430191)) by (nonlinear_arith);
    }
    if c == 69 {
        assert(is_linear_value(69, 59511238163)) by (nonlinear_arith);
    }
    if c == 70 {
        assert(is_linear_value(70, 61246054232)) by (nonlinear_arith);
    }
    if c == 71 {
        assert(is_linear_value(71, 63010017653)) by (nonlinear_arith);
    }
    if c == 72 {
        assert(is_linear_value(72, 64803266693)) by (nonlinear_arith);
    }
    if c == 73 {
        assert(is_linear_value(73, 66625938644)) by (nonlinear_arith);
    }
    if c == 74 {
        assert(is_linear_value(74, 68478169844)) by (nonlinear_arith);
    }
    if c == 75 {
        assert(is_linear_value(75, 70360095697)) by (nonlinear_arith);
    }
    if c == 76 {
        assert(is_linear_value(76, 72271850682)) by (nonlinear_arith);
    }
    if c == 77 {
        assert(is_linear_value(77, 74213568380)) by (nonlinear_arith);
    }
    if c == 78 {
        assert(is_linear_value(78, 76185381481)) by (nonlinear_arith);
    }
    if c == 79 {
        assert(is_linear_value(79, 78187421805)) by (nonlinear_arith);
    }
    if c == 80 {
        assert(is_linear_value(80, 80219820314)) by (nonlinear_arith);
    }
    if c == 81 {
        assert(is_linear_value(81, 82282707130)) by (nonlinear_arith);
    }
    if c == 82 {
        assert(is_linear_value(82, 84376211544)) by (nonlinear_arith);
    }
    if c == 83 {
        assert(is_linear_value(83, 86500462037)) by (nonlinear_arith);
    }
    if c == 84 {
        assert(is_linear_value(84, 88655586286)) by (nonlinear_arith);
    }
    if c == 85 {
        assert(is_linear_value(85, 90841711183)) by (nonlinear_arith);
    }
    if c == 86 {
        assert(is_linear_value(86, 93058962847)) by (nonlinear_arith);
    }
    if c == 87 {
        assert(is_linear_value(87, 95307466631)) by (nonlinear_arith);
    }
    if c == 88 {
        assert(is_linear_value(88, 97587347142)) by (nonlinear_arith);
    }
    if c == 89 {
        assert(is_linear_value(89, 99898728247)) by (nonlinear_arith);
    }
    if c == 90 {
        assert(is_linear_value(90, 102241733088)) by (nonlinear_arith);
    }
    if c == 91 {
        assert(is_linear_value(91, 104616484091)) by (nonlinear_arith);
    }
    if c == 92 {
        assert(is_linear_value(92, 107023102978)) by (nonlinear_arith);
    }
    if c == 93 {
        assert(is_linear_value(93, 109461710778)) by (nonlinear_arith);
    }
    if c == 94 {
        assert(is_linear_value(94, 111932427837)) by (nonlinear_arith);
    }
    if c == 95 {
        assert(is_linear_value(95, 114435373827)) by (nonlinear_arith);
    }
    if c == 96 {
        assert(is_linear_value(96, 116970667759)) by (nonlinear_arith);
    }
    if c == 97 {
        assert(is_linear_value(97, 119538427988)) by (nonlinear_arith);
    }
    if c == 98 {
        assert(is_linear_value(98, 122138772230)) by (nonlinear_arith);
    }
    if c == 99 {
        assert(is_linear_value(99, 124771817561)) by (nonlinear_arith);
    }
    if c == 100 {
        assert(is_linear_value(100, 127437680436)) by (nonlinear_arith);
    }
    if c == 101 {
        assert(is_linear_value(101, 130136476690)) by (nonlinear_arith);
    }
    if c == 102 {
        assert(is_linear_value(102, 132868321554)) by (nonlinear_arith);
    }
    if c == 103 {
        assert(is_linear_value(103, 135633329655)) by (nonlinear_arith);
    }
    if c == 104 {
        assert(is_linear_value(104, 138431615032)) by (nonlinear_arith);
    }
    if c == 105 {
        assert(is_linear_value(105, 141263291140)) by (nonlinear_arith);
    }
    if c == 106 {
        assert(is_linear_value(106, 144128470858)) by (nonlinear_arith);
    }
    if c == 107 {
        assert(is_linear_value(107, 147027266498)) by (nonlinear_arith);
    }
    if c == 108 {
        assert(is_linear_value(108, 149959789811)) by (nonlinear_arith);
    }
    if c == 109 {
        assert(is_linear_value(109, 152926151996)) by (nonlinear_arith);
    }
    if c == 110 {
        assert(is_linear_value(110, 155926463708)) by (nonlinear_arith);
    }
    if c == 111 {
        assert(is_linear_value(111, 158960835061)) by (nonlinear_arith);
    }
    if c == 112 {
        assert(is_linear_value(112, 162029375639)) by (nonlinear_arith);
    }
    if c == 113 {
        assert(is_linear_value(113, 165132194502)) by (nonlinear_arith);
    }
    if c == 114 {
        assert(is_linear_value(114, 168269400190)) by (nonlinear_arith);
    }
    if c == 115 {
        assert(is_linear_value(115, 171441100733)) by (nonlinear_arith);
    }
    if c == 116 {
        assert(is_linear_value(116, 174647403656)) by (nonlinear_arith);
    }
    if c == 117 {
        assert(is_linear_value(117, 177888415984)) by (nonlinear_arith);
    }
    if c == 118 {
        assert(is_linear_value(118, 181164244250)) by (nonlinear_arith);
    }
    if c == 119 {
        assert(is_linear_value(119, 184474994500)) by (nonlinear_arith);
    }
    if c == 120 {
        assert(is_linear_value(120, 187820772301)) by (nonlinear_arith);
    }
    if c == 121 {
        assert(is_linear_value(121, 191201682741)) by (nonlinear_arith);
    }
    if c == 122 {
        assert(is_linear_value(122, 194617830442)) by (nonlinear_arith);
    }
    if c == 123 {
        assert(is_linear_value(123, 198069319560)) by (nonlinear_arith);
    }
    if c == 124 {
        assert(is_linear_value(124, 201556253794)) by (nonlinear_arith);
    }
    if c == 125 {
        assert(is_linear_value(125, 205078736390)) by (nonlinear_arith);
    }
    if c == 126 {
        assert(is_linear_value(126, 208636870145)) by (nonlinear_arith);
    }
    if c == 127 {
        assert(is_linear_value(127, 212230757414)) by (nonlinear_arith);
    }
    if c == 128 {
        assert(is_linear_value(128, 215860500114)) by (nonlinear_arith);
    }
    if c == 129 {
        assert(is_linear_value(129, 219526199729)) by (nonlinear_arith);
    }
    if c == 130 {
        assert(is_linear_value(130, 223227957317)) by (nonlinear_arith);
    }
    if c == 131 {
        assert(is_linear_value(131, 226965873510)) by (nonlinear_arith);
    }
    if c == 132 {
        assert(is_linear_value(132, 230740048524)) by (nonlinear_arith);
    }
    if c == 133 {
        assert(is_linear_value(133, 234550582161)) by (nonlinear_arith);
    }
    if c == 134 {
        assert(is_linear_value(134, 238397573812)) by (nonlinear_arith);
    }
    if c == 135 {
        assert(is_linear_value(135, 242281122466)) by (nonlinear_arith);
    }
    if c == 136 {
        assert(is_linear_value(136, 246201326708)) by (nonlinear_arith);
    }
    if c == 137 {
        assert(is_linear_value(137, 250158284730)) by (nonlinear_arith);
    }
    if c == 138 {
        assert(is_linear_value(138, 254152094331)) by (nonlinear_arith);
    }
    if c == 139 {
        assert(is_linear_value(139, 258182852922)) by (nonlinear_arith);
    }
    if c == 140 {
        assert(is_linear_value(140, 262250657530)) by (nonlinear_arith);
    }
    if c == 141 {
        assert(is_linear_value(141, 266355604803)) by (nonlinear_arith);
    }
    if c == 142 {
        assert(is_linear_value(142, 270497791013)) by (nonlinear_arith);
    }
    if c == 143 {
        assert(is_linear_value(143, 274677312060)) by (nonlinear_arith);
    }
    if c == 144 {
        assert(is_linear_value(144, 278894263477)) by (nonlinear_arith);
    }
    if c == 145 {
        assert(is_linear_value(145, 283148740430)) by (nonlinear_arith);
    }
    if c == 146 {
        assert(is_linear_value(146, 287440837727)) by (nonlinear_arith);
    }
    if c == 147 {
        assert(is_linear_value(147, 291770649818)) by (nonlinear_arith);
    }
    if c == 148 {
        assert(is_linear_value(148, 296138270798)) by (nonlinear_arith);
    }
    if c == 149 {
        assert(is_linear_value(149, 300543794416)) by (nonlinear_arith);
    }
    if c == 150 {
        assert(is_linear_value(150, 304987314070)) by (nonlinear_arith);
    }
    if c == 151 {
        assert(is_linear_value(151, 309468922818)) by (nonlinear_arith);
    }
    if c == 152 {
        assert(is_linear_value(152, 313988713376)) by (nonlinear_arith);
    }
    if c == 153 {
        assert(is_linear_value(153, 318546778125)) by (nonlinear_arith);
    }
    if c == 154 {
        assert(is_linear_value(154, 323143209113)) by (nonlinear_arith);
    }
    if c == 155 {
        assert(is_linear_value(155, 327778098057)) by (nonlinear_arith);
    }
    if c == 156 {
        assert(is_linear_value(156, 332451536346)) by (nonlinear_arith);
    }
    if c == 157 {
        assert(is_linear_value(157, 337163615048)) by (nonlinear_arith);
    }
    if c == 158 {
        assert(is_linear_value(158, 341914424909)) by (nonlinear_arith);
    }
    if c == 159 {
        assert(is_linear_value(159, 346704056355)) by (nonlinear_arith);
    }
    if c == 160 {
        assert(is_linear_value(160, 351532599500)) by (nonlinear_arith);
    }
    if c == 161 {
        assert(is_linear_value(161, 356400144146)) by (nonlinear_arith);
    }
    if c == 162 {
        assert(is_linear_value(162, 361306779784)) by (nonlinear_arith);
    }
    if c == 163 {
        assert(is_linear_value(163, 366252595599)) by (nonlinear_arith);
    }
    if c == 164 {
        assert(is_linear_value(164, 371237680474)) by (nonlinear_arith);
    }
    if c == 165 {
        assert(is_linear_value(165, 376262122991)) by (nonlinear_arith);
    }
    if c == 166 {
        assert(is_linear_value(166, 381326011433)) by (nonlinear_arith);
    }
    if c == 167 {
        assert(is_linear_value(167, 386429433787)) by (nonlinear_arith);
    }
    if c == 168 {
        assert(is_linear_value(168, 391572477750)) by (nonlinear_arith);
    }
    if c == 169 {
        assert(is_linear_value(169, 396755230726)) by (nonlinear_arith);
    }
    if c == 170 {
        assert(is_linear_value(170, 401977779832)) by (nonlinear_arith);
    }
    if c == 171 {
        assert(is_linear_value(171, 407240211902)) by (nonlinear_arith);
    }
    if c == 172 {
        assert(is_linear_value(172, 412542613484)) by (nonlinear_arith);
    }
    if c == 173 {
        assert(is_linear_value(173, 417885070848)) by (nonlinear_arith);
    }
    if c == 174 {
        assert(is_linear_value(174, 423267669986)) by (nonlinear_arith);
    }
    if c == 175 {
        assert(is_linear_value(175, 428690496614)) by (nonlinear_arith);
    }
    if c == 176 {
        assert(is_linear_value(176, 434153636175)) by (nonlinear_arith);
    }
    if c == 177 {
        assert(is_linear_value(177, 439657173841)) by (nonlinear_arith);
    }
    if c == 178 {
        assert(is_linear_value(178, 445201194516)) by (nonlinear_arith);
    }
    if c == 179 {
        assert(is_linear_value(179, 450785782838)) by (nonlinear_arith);
    }
    if c == 180 {
        assert(is_linear_value(180, 456411023180)) by (nonlinear_arith);
    }
    if c == 181 {
        assert(is_linear_value(181, 462076999654)) by (nonlinear_arith);
    }
    if c == 182 {
        assert(is_linear_value(182, 467783796112)) by (nonlinear_arith);
    }
    if c == 183 {
        assert(is_linear_value(183, 473531496148)) by (nonlinear_arith);
    }
    if c == 184 {
        assert(is_linear_value(184, 479320183101)) by (nonlinear_arith);
    }
    if c == 185 {
        assert(is_linear_value(185, 485149940056)) by (nonlinear_arith);
    }
    if c == 186 {
        assert(is_linear_value(186, 491020849848)) by (nonlinear_arith);
    }
    if c == 187 {
        assert(is_linear_value(187, 496932995061)) by (nonlinear_arith);
    }
    if c == 188 {
        assert(is_linear_value(188, 502886458033)) by (nonlinear_arith);
    }
    if c == 189 {
        assert(is_linear_value(189, 508881320855)) by (nonlinear_arith);
    }
    if c == 190 {
        assert(is_linear_value(190, 514917665377)) by (nonlinear_arith);
    }
    if c == 191 {
        assert(is_linear_value(191, 520995573204)) by (nonlinear_arith);
    }
    if c == 192 {
        assert(is_linear_value(192, 527115125706)) by (nonlinear_arith);
    }
    if c == 193 {
        assert(is_linear_value(193, 533276404011)) by (nonlinear_arith);
    }
    if c == 194 {
        assert(is_linear_value(194, 539479489012)) by (nonlinear_arith);
    }
    if c == 195 {
        assert(is_linear_value(195, 545724461370)) by (nonlinear_arith);
    }
    if c == 196 {
        assert(is_linear_value(196, 552011401512)) by (nonlinear_arith);
    }
    if c == 197 {
        assert(is_linear_value(197, 558340389634)) by (nonlinear_arith);
    }
    if c == 198 {
        assert(is_linear_value(198, 564711505705)) by (nonlinear_arith);
    }
    if c == 199 {
        assert(is_linear_value(199, 571124829465)) by (nonlinear_arith);
    }
    if c == 200 {
        assert(is_linear_value(200, 577580440430)) by (nonlinear_arith);
    }
    if c == 201 {
        assert(is_linear_value(201, 584078417891)) by (nonlinear_arith);
    }
    if c == 202 {
        assert(is_linear_value(202, 590618840919)) by (nonlinear_arith);
    }
    if c == 203 {
        assert(is_linear_value(203, 597201788364)) by (nonlinear_arith);
    }
    if c == 204 {
        assert(is_linear_value(204, 603827338855)) by (nonlinear_arith);
    }
    if c == 205 {
        assert(is_linear_value(205, 610495570808)) by (nonlinear_arith);
    }
    if c == 206 {
        assert(is_linear_value(206, 617206562420)) by (nonlinear_arith);
    }
    if c == 207 {
        assert(is_linear_value(207, 623960391675)) by (nonlinear_arith);
    }
    if c == 208 {
        assert(is_linear_value(208, 630757136346)) by (nonlinear_arith);
    }
    if c == 209 {
        assert(is_linear_value(209, 637596873994)) by (nonlinear_arith);
    }
    if c == 210 {
        assert(is_linear_value(210, 644479681971)) by (nonlinear_arith);
    }
    if c == 211 {
        assert(is_linear_value(211, 651405637420)) by (nonlinear_arith);
    }
    if c == 212 {
        assert(is_linear_value(212, 658374817279)) by (nonlinear_arith);
    }
    if c == 213 {
        assert(is_linear_value(213, 665387298282)) by (nonlinear_arith);
    }
    if c == 214 {
        assert(is_linear_value(214, 672443156958)) by (nonlinear_arith);
    }
    if c == 215 {
        assert(is_linear_value(215, 679542469633)) by (nonlinear_arith);
    }
    if c == 216 {
        assert(is_linear_value(216, 686685312435)) by (nonlinear_arith);
    }
    if c == 217 {
        assert(is_linear_value(217, 693871761292)) by (nonlinear_arith);
    }
    if c == 218 {
        assert(is_linear_value(218, 701101891933)) by (nonlinear_arith);
    }
    if c == 219 {
        assert(is_linear_value(219, 708375779892)) by (nonlinear_arith);
    }
    if c == 220 {
        assert(is_linear_value(220, 715693500506)) by (nonlinear_arith);
    }
    if c == 221 {
        assert(is_linear_value(221, 723055128922)) by (nonlinear_arith);
    }
    if c == 222 {
        assert(is_linear_value(222, 730460740090)) by (nonlinear_arith);
    }
    if c == 223 {
        assert(is_linear_value(223, 737910408773)) by (nonlinear_arith);
    }
    if c == 224 {
        assert(is_linear_value(224, 745404209540)) by (nonlinear_arith);
    }
    if c == 225 {
        assert(is_linear_value(225, 752942216776)) by (nonlinear_arith);
    }
    if c == 226 {
        assert(is_linear_value(226, 760524504675)) by (nonlinear_arith);
    }
    if c == 227 {
        assert(is_linear_value(227, 768151147248)) by (nonlinear_arith);
    }
    if c == 228 {
        assert(is_linear_value(228, 775822218317)) by (nonlinear_arith);
    }
    if c == 229 {
        assert(is_linear_value(229, 783537791526)) by (nonlinear_arith);
    }
    if c == 230 {
        assert(is_linear_value(230, 791297940333)) by (nonlinear_arith);
    }
    if c == 231 {
        assert(is_linear_value(231, 799102738014)) by (nonlinear_arith);
    }
    if c == 232 {
        assert(is_linear_value(232, 806952257669)) by (nonlinear_arith);
    }
    if c == 233 {
        assert(is_linear_value(233, 814846572216)) by (nonlinear_arith);
    }
    if c == 234 {
        assert(is_linear_value(234, 822785754396)) by (nonlinear_arith);
    }
    if c == 235 {
        assert(is_linear_value(235, 830769876775)) by (nonlinear_arith);
    }
    if c == 236 {
        assert(is_linear_value(236, 838799011741)) by (nonlinear_arith);
    }
    if c == 237 {
        assert(is_linear_value(237, 846873231510)) by (nonlinear_arith);
    }
    if c == 238 {
        assert(is_linear_value(238, 854992608124)) by (nonlinear_arith);
    }
    if c == 239 {
        assert(is_linear_value(239, 863157213454)) by (nonlinear_arith);
    }
    if c == 240 {
        assert(is_linear_value(240, 871367119199)) by (nonlinear_arith);
    }
    if c == 241 {
        assert(is_linear_value(241, 879622396888)) by (nonlinear_arith);
    }
    if c == 242 {
        assert(is_linear_value(242, 887923117882)) by (nonlinear_arith);
    }
    if c == 243 {
        assert(is_linear_value(243, 896269353374)) by (nonlinear_arith);
    }
    if c == 244 {
        assert(is_linear_value(244, 904661174391)) by (nonlinear_arith);
    }
    if c == 245 {
        assert(is_linear_value(245, 913098651793)) by (nonlinear_arith);
    }
    if c == 246 {
        assert(is_linear_value(246, 921581856277)) by (nonlinear_arith);
    }
    if c == 247 {
        assert(is_linear_value(247, 930110858375)) by (nonlinear_arith);
    }
    if c == 248 {
        assert(is_linear_value(248, 938685728458)) by (nonlinear_arith);
    }
    if c == 249 {
        assert(is_linear_value(249, 947306536733)) by (nonlinear_arith);
    }
    if c == 250 {
        assert(is_linear_value(250, 955973353249)) by (nonlinear_arith);
    }
    if c == 251 {
        assert(is_linear_value(251, 964686247894)) by (nonlinear_arith);
    }
    if c == 252 {
        assert(is_linear_value(252, 973445290398)) by (nonlinear_arith);
    }
    if c == 253 {
        assert(is_linear_value(253, 982250550333)) by (nonlinear_arith);
    }
    if c == 254 {
        assert(is_linear_value(254, 991102097114)) by (nonlinear_arith);
    }
    if c == 255 {
        assert(is_linear_value(255, 1000000000000)) by (nonlinear_arith);
    }
}

/// The luminance of a colour, in units of `10^-16`: its channels' linear
/// values weighted 0.2126, 0.7152 and 0.0722.
pub open spec fn luminance(color: Color) -> nat {
    2126 * linear_channel(color.r) + 7152 * linear_channel(color.g) + 722 * linear_channel(
        color.b,
    )
}

/// Every channel's linear value lies between zero and one.
pub proof fn lemma_linear_bound(c: u8)
    ensures
        linear_channel(c) <= LINEAR_ONE,
{
}

/// Luminance lies between zero and one; black has none and white has all.
pub proof fn lemma_luminance_bound(color: Color)
    ensures
        luminance(color) <= LUMINANCE_ONE,
        luminance(spec_black()) == 0,
        luminance(spec_white()) == LUMINANCE_ONE,
{
    lemma_linear_bound(color.r);
    lemma_linear_bound(color.g);
    lemma_linear_bound(color.b);
}

/// The luminance of a colour, in units of `10^-16`.
pub fn get_luminance(color: &Color) -> (r: u64)
    ensures
        r == luminance(*color),
        r <= LUMINANCE_ONE,
{
    let red: u64 = linear_value(color.r);
    let green: u64 = linear_value(color.g);
    let blue: u64 = linear_value(color.b);
    2126 * red + 7152 * green + 722 * blue
}

/// The numerator of the contrast ratio of two colours: the larger luminance
/// plus 0.05.
pub open spec fn contrast_num(a: Color, b: Color) -> int {
    if luminance(a) >= luminance(b) {
        luminance(a) + CONTRAST_OFFSET
    } else {
        luminance(b) + CONTRAST_OFFSET
    }
}

/// The denominator of the contrast ratio of two colours: the smaller
/// luminance plus 0.05. It is never zero.
pub open spec fn contrast_den(a: Color, b: Color) -> int {
    if luminance(a) >= luminance(b) {
        luminance(b) + CONTRAST_OFFSET
    } else {
        luminance(a) + CONTRAST_OFFSET
    }
}

/// The contrast of `x` against `p` is at least that of `y` against `p`.
pub open spec fn contrast_at_least(p: Color, x: Color, y: Color) -> bool {
    contrast_num(p, x) * contrast_den(p, y) >= contrast_num(p, y) * contrast_den(p, x)
}

/// The contrast of `x` against `p` is above 3.5, the threshold of legibility.
pub open spec fn legible(p: Color, x: Color) -> bool {
    2 * contrast_num(p, x) > 7 * contrast_den(p, x)
}

/// White contrasts more with `p` than black does.
pub open spec fn white_beats_black(p: Color) -> bool {
    contrast_num(p, spec_white()) * contrast_den(p, spec_black()) > contrast_num(p, spec_black())
        * contrast_den(p, spec_white())
}

/// The contrast ratio of two colours as a fraction: numerator, then
/// denominator, both in units of `10^-16`.
pub fn get_contrast(primary: &Color, secondary: &Color) -> (r: (u64, u64))
    ensures
        r.0 == contrast_num(*primary, *secondary),
        r.1 == contrast_den(*primary, *secondary),
        r.0 >= r.1 > 0,
{
    let first: u64 = get_luminance(primary);
    let second: u64 = get_luminance(secondary);
    if first >= second {
        (first + CONTRAST_OFFSET, second + CONTRAST_OFFSET)
    } else {
        (second + CONTRAST_OFFSET, first + CONTRAST_OFFSET)
    }
}

/// The secondary colour that goes with a primary one: the candidate where it
/// is legible on the primary, else the more contrasting of white and black.
pub open spec fn secondary_for(primary: Color, candidate: Color) -> Color {
    if legible(primary, candidate) {
        candidate
    } else if white_beats_black(primary) {
        spec_white()
    } else {
        spec_black()
    }
}

proof fn lemma_product_fits(a: u64, b: u64)
    ensures
        a * b <= u128::MAX,
{
    assert(a * b <= 0xffff_ffff_ffff_ffff * 0xffff_ffff_ffff_ffff) by (nonlinear_arith)
        requires
            0 <= a <= 0xffff_ffff_ffff_ffff,
            0 <= b <= 0xffff_ffff_ffff_ffff,
    ;
}

/// The secondary colour that goes with a primary one.
pub fn resolve_secondary(primary: &Color, candidate: &Color) -> (r: Color)
    ensures
        r == secondary_for(*primary, *candidate),
{
    let (num, den) = get_contrast(primary, candidate);
    let (white_num, white_den) = get_contrast(primary, &white());
    let (black_num, black_den) = get_contrast(primary, &black());
    proof {
        lemma_luminance_bound(*primary);
    }
    if 2 * num > 7 * den {
        *candidate
    } else {
        proof {
            lemma_product_fits(white_num, black_den);
            lemma_product_fits(black_num, white_den);
        }
        let white_side: u128 = white_num as u128 * black_den as u128;
        let black_side: u128 = black_num as u128 * white_den as u128;
        if white_side > black_side {
            white()
        } else {
            black()
        }
    }
}

/// Returns a secondary colour that is legible on the primary one. Both are
/// read from six hexadecimal digits; the first that cannot be read is the
/// error's message.
pub fn get_secondary_for_primary(primary: &str, secondary_candidate: &str) -> (r: Result<
    Color,
    Error,
>)
    ensures
        match hex_color(primary@) {
            None => r matches Err(e) && e@ == ErrorView::IntegerParseError(primary@),
            Some(p) => match hex_color(secondary_candidate@) {
                None => r matches Err(e) && e@ == ErrorView::IntegerParseError(
                    secondary_candidate@,
                ),
                Some(c) => r matches Ok(s) && s == secondary_for(p, c),
            },
        },
{
    let primary_color = get_rgb_from_hex(primary)?;
    let candidate = get_rgb_from_hex(secondary_candidate)?;
    Ok(resolve_secondary(&primary_color, &candidate))
}

/// The colour chosen for a primary one contrasts with it at least as much as
/// white or as black does, and where the candidate is legible it is kept, so
/// that the contrast is then above 3.5. A legible candidate that contrasts
/// less than both white and black is kept all the same: the first claim is
/// made for the other pairs.
pub proof fn lemma_secondary_contrast(primary: Color, candidate: Color)
    requires
        legible(primary, candidate) ==> contrast_at_least(primary, candidate, spec_white())
            || contrast_at_least(primary, candidate, spec_black()),
    ensures
        contrast_at_least(primary, secondary_for(primary, candidate), spec_white())
            || contrast_at_least(primary, secondary_for(primary, candidate), spec_black()),
        legible(primary, candidate) ==> secondary_for(primary, candidate) == candidate && 2
            * contrast_num(primary, secondary_for(primary, candidate)) >= 7 * contrast_den(
            primary,
            secondary_for(primary, candidate),
        ),
{
}

/// Where the candidate is not legible, the colour chosen contrasts with the
/// primary at least as much as white does and at least as much as black does.
pub proof fn lemma_fallback_is_best(primary: Color, candidate: Color)
    requires
        !legible(primary, candidate),
    ensures
        contrast_at_least(primary, secondary_for(primary, candidate), spec_white()),
        contrast_at_least(primary, secondary_for(primary, candidate), spec_black()),
{
}

} // verus!
