//! Colors: 8-bit sRGB values, the CSS named colors, and the grammar of
//! CSS-like color strings.
use vstd::prelude::*;
use vstd::string::StringSliceAdditionalSpecFns;
use crate::builder::{lemma_increasing_distinct, lemma_key_less_transitive};
use crate::transaction::{key_less, keys_increasing};

verus! {

/// The sRGB color space with a D65 white point and 8-bit values.
#[derive(Debug, Clone, Copy, Hash, PartialEq, Eq, Structural, PartialOrd, Ord)]
pub struct SRgb {
    pub r: u8,
    pub g: u8,
    pub b: u8,
}

/// The named colors, in the order in which names are looked up.
pub open spec fn named_colors() -> Seq<(&'static str, SRgb)> {
    seq![
        ("aliceblue", SRgb { r: 240, g: 248, b: 255 }),
        ("antiquewhite", SRgb { r: 250, g: 235, b: 215 }),
        ("aqua", SRgb { r: 0, g: 255, b: 255 }),
        ("aquamarine", SRgb { r: 127, g: 255, b: 212 }),
        ("azure", SRgb { r: 240, g: 255, b: 255 }),
        ("beige", SRgb { r: 245, g: 245, b: 220 }),
        ("bisque", SRgb { r: 255, g: 228, b: 196 }),
        ("black", SRgb { r: 0, g: 0, b: 0 }),
        ("blanchedalmond", SRgb { r: 255, g: 235, b: 205 }),
        ("blue", SRgb { r: 0, g: 0, b: 255 }),
        ("blueviolet", SRgb { r: 138, g: 43, b: 226 }),
        ("brown", SRgb { r: 165, g: 42, b: 42 }),
        ("burlywood", SRgb { r: 222, g: 184, b: 135 }),
        ("cadetblue", SRgb { r: 95, g: 158, b: 160 }),
        ("chartreuse", SRgb { r: 127, g: 255, b: 0 }),
        ("chocolate", SRgb { r: 210, g: 105, b: 30 }),
        ("coral", SRgb { r: 255, g: 127, b: 80 }),
        ("cornflowerblue", SRgb { r: 100, g: 149, b: 237 }),
        ("cornsilk", SRgb { r: 255, g: 248, b: 220 }),
        ("crimson", SRgb { r: 220, g: 20, b: 60 }),
        ("cyan", SRgb { r: 0, g: 255, b: 255 }),
        ("darkblue", SRgb { r: 0, g: 0, b: 139 }),
        ("darkcyan", SRgb { r: 0, g: 139, b: 139 }),
        ("darkgoldenrod", SRgb { r: 184, g: 134, b: 11 }),
        ("darkgray", SRgb { r: 169, g: 169, b: 169 }),
        ("darkgreen", SRgb { r: 0, g: 100, b: 0 }),
        ("darkgrey", SRgb { r: 169, g: 169, b: 169 }),
        ("darkkhaki", SRgb { r: 189, g: 183, b: 107 }),
        ("darkmagenta", SRgb { r: 139, g: 0, b: 139 }),
        ("darkolivegreen", SRgb { r: 85, g: 107, b: 47 }),
        ("darkorange", SRgb { r: 255, g: 140, b: 0 }),
        ("darkorchid", SRgb { r: 153, g: 50, b: 204 }),
        ("darkred", SRgb { r: 139, g: 0, b: 0 }),
        ("darksalmon", SRgb { r: 233, g: 150, b: 122 }),
        ("darkseagreen", SRgb { r: 143, g: 188, b: 143 }),
        ("darkslateblue", SRgb { r: 72, g: 61, b: 139 }),
        ("darkslategray", SRgb { r: 47, g: 79, b: 79 }),
        ("darkslategrey", SRgb { r: 47, g: 79, b: 79 }),
        ("darkturquoise", SRgb { r: 0, g: 206, b: 209 }),
        ("darkviolet", SRgb { r: 148, g: 0, b: 211 }),
        ("deeppink", SRgb { r: 255, g: 20, b: 147 }),
        ("deepskyblue", SRgb { r: 0, g: 191, b: 255 }),
        ("dimgray", SRgb { r: 105, g: 105, b: 105 }),
        ("dimgrey", SRgb { r: 105, g: 105, b: 105 }),
        ("dodgerblue", SRgb { r: 30, g: 144, b: 255 }),
        ("firebrick", SRgb { r: 178, g: 34, b: 34 }),
        ("floralwhite", SRgb { r: 255, g: 250, b: 240 }),
        ("forestgreen", SRgb { r: 34, g: 139, b: 34 }),
        ("fuchsia", SRgb { r: 255, g: 0, b: 255 }),
        ("gainsboro", SRgb { r: 220, g: 220, b: 220 }),
        ("ghostwhite", SRgb { r: 248, g: 248, b: 255 }),
        ("gold", SRgb { r: 255, g: 215, b: 0 }),
        ("goldenrod", SRgb { r: 218, g: 165, b: 32 }),
        ("gray", SRgb { r: 128, g: 128, b: 128 }),
        ("green", SRgb { r: 0, g: 128, b: 0 }),
        ("greenyellow", SRgb { r: 173, g: 255, b: 47 }),
        ("grey", SRgb { r: 128, g: 128, b: 128 }),
        ("honeydew", SRgb { r: 240, g: 255, b: 240 }),
        ("hotpink", SRgb { r: 255, g: 105, b: 180 }),
        ("indianred", SRgb { r: 205, g: 92, b: 92 }),
        ("indigo", SRgb { r: 75, g: 0, b: 130 }),
        ("ivory", SRgb { r: 255, g: 255, b: 240 }),
        ("khaki", SRgb { r: 240, g: 230, b: 140 }),
        ("lavender", SRgb { r: 230, g: 230, b: 250 }),
        ("lavenderblush", SRgb { r: 255, g: 240, b: 245 }),
        ("lawngreen", SRgb { r: 124, g: 252, b: 0 }),
        ("lemonchiffon", SRgb { r: 255, g: 250, b: 205 }),
        ("lightblue", SRgb { r: 173, g: 216, b: 230 }),
        ("lightcoral", SRgb { r: 240, g: 128, b: 128 }),
        ("lightcyan", SRgb { r: 224, g: 255, b: 255 }),
        ("lightgoldenrodyellow", SRgb { r: 250, g: 250, b: 210 }),
        ("lightgray", SRgb { r: 211, g: 211, b: 211 }),
        ("lightgreen", SRgb { r: 144, g: 238, b: 144 }),
        ("lightgrey", SRgb { r: 211, g: 211, b: 211 }),
        ("lightpink", SRgb { r: 255, g: 182, b: 193 }),
        ("lightsalmon", SRgb { r: 255, g: 160, b: 122 }),
        ("lightseagreen", SRgb { r: 32, g: 178, b: 170 }),
        ("lightskyblue", SRgb { r: 135, g: 206, b: 250 }),
        ("lightslategray", SRgb { r: 119, g: 136, b: 153 }),
        ("lightslategrey", SRgb { r: 119, g: 136, b: 153 }),
        ("lightsteelblue", SRgb { r: 176, g: 196, b: 222 }),
        ("lightyellow", SRgb { r: 255, g: 255, b: 224 }),
        ("lime", SRgb { r: 0, g: 255, b: 0 }),
        ("limegreen", SRgb { r: 50, g: 205, b: 50 }),
        ("linen", SRgb { r: 250, g: 240, b: 230 }),
        ("magenta", SRgb { r: 255, g: 0, b: 255 }),
        ("maroon", SRgb { r: 128, g: 0, b: 0 }),
        ("mediumaquamarine", SRgb { r: 102, g: 205, b: 170 }),
        ("mediumblue", SRgb { r: 0, g: 0, b: 205 }),
        ("mediumorchid", SRgb { r: 186, g: 85, b: 211 }),
        ("mediumpurple", SRgb { r: 147, g: 112, b: 219 }),
        ("mediumseagreen", SRgb { r: 60, g: 179, b: 113 }),
        ("mediumslateblue", SRgb { r: 123, g: 104, b: 238 }),
        ("mediumspringgreen", SRgb { r: 0, g: 250, b: 154 }),
        ("mediumturquoise", SRgb { r: 72, g: 209, b: 204 }),
        ("mediumvioletred", SRgb { r: 199, g: 21, b: 133 }),
        ("midnightblue", SRgb { r: 25, g: 25, b: 112 }),
        ("mintcream", SRgb { r: 245, g: 255, b: 250 }),
        ("mistyrose", SRgb { r: 255, g: 228, b: 225 }),
        ("moccasin", SRgb { r: 255, g: 228, b: 181 }),
        ("navajowhite", SRgb { r: 255, g: 222, b: 173 }),
        ("navy", SRgb { r: 0, g: 0, b: 128 }),
        ("oldlace", SRgb { r: 253, g: 245, b: 230 }),
        ("olive", SRgb { r: 128, g: 128, b: 0 }),
        ("olivedrab", SRgb { r: 107, g: 142, b: 35 }),
        ("orange", SRgb { r: 255, g: 165, b: 0 }),
        ("orangered", SRgb { r: 255, g: 69, b: 0 }),
        ("orchid", SRgb { r: 218, g: 112, b: 214 }),
        ("palegoldenrod", SRgb { r: 238, g: 232, b: 170 }),
        ("palegreen", SRgb { r: 152, g: 251, b: 152 }),
        ("paleturquoise", SRgb { r: 175, g: 238, b: 238 }),
        ("palevioletred", SRgb { r: 219, g: 112, b: 147 }),
        ("papayawhip", SRgb { r: 255, g: 239, b: 213 }),
        ("peachpuff", SRgb { r: 255, g: 218, b: 185 }),
        ("peru", SRgb { r: 205, g: 133, b: 63 }),
        ("pink", SRgb { r: 255, g: 192, b: 203 }),
        ("plum", SRgb { r: 221, g: 160, b: 221 }),
        ("powderblue", SRgb { r: 176, g: 224, b: 230 }),
        ("purple", SRgb { r: 128, g: 0, b: 128 }),
        ("rebeccapurple", SRgb { r: 102, g: 51, b: 153 }),
        ("red", SRgb { r: 255, g: 0, b: 0 }),
        ("rosybrown", SRgb { r: 188, g: 143, b: 143 }),
        ("royalblue", SRgb { r: 65, g: 105, b: 225 }),
        ("saddlebrown", SRgb { r: 139, g: 69, b: 19 }),
        ("salmon", SRgb { r: 250, g: 128, b: 114 }),
        ("sandybrown", SRgb { r: 244, g: 164, b: 96 }),
        ("seagreen", SRgb { r: 46, g: 139, b: 87 }),
        ("seashell", SRgb { r: 255, g: 245, b: 238 }),
        ("sienna", SRgb { r: 160, g: 82, b: 45 }),
        ("silver", SRgb { r: 192, g: 192, b: 192 }),
        ("skyblue", SRgb { r: 135, g: 206, b: 235 }),
        ("slateblue", SRgb { r: 106, g: 90, b: 205 }),
        ("slategray", SRgb { r: 112, g: 128, b: 144 }),
        ("slategrey", SRgb { r: 112, g: 128, b: 144 }),
        ("snow", SRgb { r: 255, g: 250, b: 250 }),
        ("springgreen", SRgb { r: 0, g: 255, b: 127 }),
        ("steelblue", SRgb { r: 70, g: 130, b: 180 }),
        ("tan", SRgb { r: 210, g: 180, b: 140 }),
        ("teal", SRgb { r: 0, g: 128, b: 128 }),
        ("thistle", SRgb { r: 216, g: 191, b: 216 }),
        ("tomato", SRgb { r: 255, g: 99, b: 71 }),
        ("turquoise", SRgb { r: 64, g: 224, b: 208 }),
        ("violet", SRgb { r: 238, g: 130, b: 238 }),
        ("wheat", SRgb { r: 245, g: 222, b: 179 }),
        ("white", SRgb { r: 255, g: 255, b: 255 }),
        ("whitesmoke", SRgb { r: 245, g: 245, b: 245 }),
        ("yellow", SRgb { r: 255, g: 255, b: 0 }),
        ("yellowgreen", SRgb { r: 154, g: 205, b: 50 })
    ]
}

/// The named colors are the CSS color keywords with their CSS values, in
/// alphabetical order of their names, which is the order in which they are
/// looked up.
pub proof fn lemma_named_colors_are_css_keywords()
    ensures
        named_colors().len() == 148,
        named_colors()[0] == ("aliceblue", SRgb { r: 240, g: 248, b: 255 }),
        named_colors()[1] == ("antiquewhite", SRgb { r: 250, g: 235, b: 215 }),
        named_colors()[2] == ("aqua", SRgb { r: 0, g: 255, b: 255 }),
        named_colors()[3] == ("aquamarine", SRgb { r: 127, g: 255, b: 212 }),
        named_colors()[4] == ("azure", SRgb { r: 240, g: 255, b: 255 }),
        named_colors()[5] == ("beige", SRgb { r: 245, g: 245, b: 220 }),
        named_colors()[6] == ("bisque", SRgb { r: 255, g: 228, b: 196 }),
        named_colors()[7] == ("black", SRgb { r: 0, g: 0, b: 0 }),
        named_colors()[8] == ("blanchedalmond", SRgb { r: 255, g: 235, b: 205 }),
        named_colors()[9] == ("blue", SRgb { r: 0, g: 0, b: 255 }),
        named_colors()[10] == ("blueviolet", SRgb { r: 138, g: 43, b: 226 }),
        named_colors()[11] == ("brown", SRgb { r: 165, g: 42, b: 42 }),
        named_colors()[12] == ("burlywood", SRgb { r: 222, g: 184, b: 135 }),
        named_colors()[13] == ("cadetblue", SRgb { r: 95, g: 158, b: 160 }),
        named_colors()[14] == ("chartreuse", SRgb { r: 127, g: 255, b: 0 }),
        named_colors()[15] == ("chocolate", SRgb { r: 210, g: 105, b: 30 }),
        named_colors()[16] == ("coral", SRgb { r: 255, g: 127, b: 80 }),
        named_colors()[17] == ("cornflowerblue", SRgb { r: 100, g: 149, b: 237 }),
        named_colors()[18] == ("cornsilk", SRgb { r: 255, g: 248, b: 220 }),
        named_colors()[19] == ("crimson", SRgb { r: 220, g: 20, b: 60 }),
        named_colors()[20] == ("cyan", SRgb { r: 0, g: 255, b: 255 }),
        named_colors()[21] == ("darkblue", SRgb { r: 0, g: 0, b: 139 }),
        named_colors()[22] == ("darkcyan", SRgb { r: 0, g: 139, b: 139 }),
        named_colors()[23] == ("darkgoldenrod", SRgb { r: 184, g: 134, b: 11 }),
        named_colors()[24] == ("darkgray", SRgb { r: 169, g: 169, b: 169 }),
        named_colors()[25] == ("darkgreen", SRgb { r: 0, g: 100, b: 0 }),
        named_colors()[26] == ("darkgrey", SRgb { r: 169, g: 169, b: 169 }),
        named_colors()[27] == ("darkkhaki", SRgb { r: 189, g: 183, b: 107 }),
        named_colors()[28] == ("darkmagenta", SRgb { r: 139, g: 0, b: 139 }),
        named_colors()[29] == ("darkolivegreen", SRgb { r: 85, g: 107, b: 47 }),
        named_colors()[30] == ("darkorange", SRgb { r: 255, g: 140, b: 0 }),
        named_colors()[31] == ("darkorchid", SRgb { r: 153, g: 50, b: 204 }),
        named_colors()[32] == ("darkred", SRgb { r: 139, g: 0, b: 0 }),
        named_colors()[33] == ("darksalmon", SRgb { r: 233, g: 150, b: 122 }),
        named_colors()[34] == ("darkseagreen", SRgb { r: 143, g: 188, b: 143 }),
        named_colors()[35] == ("darkslateblue", SRgb { r: 72, g: 61, b: 139 }),
        named_colors()[36] == ("darkslategray", SRgb { r: 47, g: 79, b: 79 }),
        named_colors()[37] == ("darkslategrey", SRgb { r: 47, g: 79, b: 79 }),
        named_colors()[38] == ("darkturquoise", SRgb { r: 0, g: 206, b: 209 }),
        named_colors()[39] == ("darkviolet", SRgb { r: 148, g: 0, b: 211 }),
        named_colors()[40] == ("deeppink", SRgb { r: 255, g: 20, b: 147 }),
        named_colors()[41] == ("deepskyblue", SRgb { r: 0, g: 191, b: 255 }),
        named_colors()[42] == ("dimgray", SRgb { r: 105, g: 105, b: 105 }),
        named_colors()[43] == ("dimgrey", SRgb { r: 105, g: 105, b: 105 }),
        named_colors()[44] == ("dodgerblue", SRgb { r: 30, g: 144, b: 255 }),
        named_colors()[45] == ("firebrick", SRgb { r: 178, g: 34, b: 34 }),
        named_colors()[46] == ("floralwhite", SRgb { r: 255, g: 250, b: 240 }),
        named_colors()[47] == ("forestgreen", SRgb { r: 34, g: 139, b: 34 }),
        named_colors()[48] == ("fuchsia", SRgb { r: 255, g: 0, b: 255 }),
        named_colors()[49] == ("gainsboro", SRgb { r: 220, g: 220, b: 220 }),
        named_colors()[50] == ("ghostwhite", SRgb { r: 248, g: 248, b: 255 }),
        named_colors()[51] == ("gold", SRgb { r: 255, g: 215, b: 0 }),
        named_colors()[52] == ("goldenrod", SRgb { r: 218, g: 165, b: 32 }),
        named_colors()[53] == ("gray", SRgb { r: 128, g: 128, b: 128 }),
        named_colors()[54] == ("green", SRgb { r: 0, g: 128, b: 0 }),
        named_colors()[55] == ("greenyellow", SRgb { r: 173, g: 255, b: 47 }),
        named_colors()[56] == ("grey", SRgb { r: 128, g: 128, b: 128 }),
        named_colors()[57] == ("honeydew", SRgb { r: 240, g: 255, b: 240 }),
        named_colors()[58] == ("hotpink", SRgb { r: 255, g: 105, b: 180 }),
        named_colors()[59] == ("indianred", SRgb { r: 205, g: 92, b: 92 }),
        named_colors()[60] == ("indigo", SRgb { r: 75, g: 0, b: 130 }),
        named_colors()[61] == ("ivory", SRgb { r: 255, g: 255, b: 240 }),
        named_colors()[62] == ("khaki", SRgb { r: 240, g: 230, b: 140 }),
        named_colors()[63] == ("lavender", SRgb { r: 230, g: 230, b: 250 }),
        named_colors()[64] == ("lavenderblush", SRgb { r: 255, g: 240, b: 245 }),
        named_colors()[65] == ("lawngreen", SRgb { r: 124, g: 252, b: 0 }),
        named_colors()[66] == ("lemonchiffon", SRgb { r: 255, g: 250, b: 205 }),
        named_colors()[67] == ("lightblue", SRgb { r: 173, g: 216, b: 230 }),
        named_colors()[68] == ("lightcoral", SRgb { r: 240, g: 128, b: 128 }),
        named_colors()[69] == ("lightcyan", SRgb { r: 224, g: 255, b: 255 }),
        named_colors()[70] == ("lightgoldenrodyellow", SRgb { r: 250, g: 250, b: 210 }),
        named_colors()[71] == ("lightgray", SRgb { r: 211, g: 211, b: 211 }),
        named_colors()[72] == ("lightgreen", SRgb { r: 144, g: 238, b: 144 }),
        named_colors()[73] == ("lightgrey", SRgb { r: 211, g: 211, b: 211 }),
        named_colors()[74] == ("lightpink", SRgb { r: 255, g: 182, b: 193 }),
        named_colors()[75] == ("lightsalmon", SRgb { r: 255, g: 160, b: 122 }),
        named_colors()[76] == ("lightseagreen", SRgb { r: 32, g: 178, b: 170 }),
        named_colors()[77] == ("lightskyblue", SRgb { r: 135, g: 206, b: 250 }),
        named_colors()[78] == ("lightslategray", SRgb { r: 119, g: 136, b: 153 }),
        named_colors()[79] == ("lightslategrey", SRgb { r: 119, g: 136, b: 153 }),
        named_colors()[80] == ("lightsteelblue", SRgb { r: 176, g: 196, b: 222 }),
        named_colors()[81] == ("lightyellow", SRgb { r: 255, g: 255, b: 224 }),
        named_colors()[82] == ("lime", SRgb { r: 0, g: 255, b: 0 }),
        named_colors()[83] == ("limegreen", SRgb { r: 50, g: 205, b: 50 }),
        named_colors()[84] == ("linen", SRgb { r: 250, g: 240, b: 230 }),
        named_colors()[85] == ("magenta", SRgb { r: 255, g: 0, b: 255 }),
        named_colors()[86] == ("maroon", SRgb { r: 128, g: 0, b: 0 }),
        named_colors()[87] == ("mediumaquamarine", SRgb { r: 102, g: 205, b: 170 }),
        named_colors()[88] == ("mediumblue", SRgb { r: 0, g: 0, b: 205 }),
        named_colors()[89] == ("mediumorchid", SRgb { r: 186, g: 85, b: 211 }),
        named_colors()[90] == ("mediumpurple", SRgb { r: 147, g: 112, b: 219 }),
        named_colors()[91] == ("mediumseagreen", SRgb { r: 60, g: 179, b: 113 }),
        named_colors()[92] == ("mediumslateblue", SRgb { r: 123, g: 104, b: 238 }),
        named_colors()[93] == ("mediumspringgreen", SRgb { r: 0, g: 250, b: 154 }),
        named_colors()[94] == ("mediumturquoise", SRgb { r: 72, g: 209, b: 204 }),
        named_colors()[95] == ("mediumvioletred", SRgb { r: 199, g: 21, b: 133 }),
        named_colors()[96] == ("midnightblue", SRgb { r: 25, g: 25, b: 112 }),
        named_colors()[97] == ("mintcream", SRgb { r: 245, g: 255, b: 250 }),
        named_colors()[98] == ("mistyrose", SRgb { r: 255, g: 228, b: 225 }),
        named_colors()[99] == ("moccasin", SRgb { r: 255, g: 228, b: 181 }),
        named_colors()[100] == ("navajowhite", SRgb { r: 255, g: 222, b: 173 }),
        named_colors()[101] == ("navy", SRgb { r: 0, g: 0, b: 128 }),
        named_colors()[102] == ("oldlace", SRgb { r: 253, g: 245, b: 230 }),
        named_colors()[103] == ("olive", SRgb { r: 128, g: 128, b: 0 }),
        named_colors()[104] == ("olivedrab", SRgb { r: 107, g: 142, b: 35 }),
        named_colors()[105] == ("orange", SRgb { r: 255, g: 165, b: 0 }),
        named_colors()[106] == ("orangered", SRgb { r: 255, g: 69, b: 0 }),
        named_colors()[107] == ("orchid", SRgb { r: 218, g: 112, b: 214 }),
        named_colors()[108] == ("palegoldenrod", SRgb { r: 238, g: 232, b: 170 }),
        named_colors()[109] == ("palegreen", SRgb { r: 152, g: 251, b: 152 }),
        named_colors()[110] == ("paleturquoise", SRgb { r: 175, g: 238, b: 238 }),
        named_colors()[111] == ("palevioletred", SRgb { r: 219, g: 112, b: 147 }),
        named_colors()[112] == ("papayawhip", SRgb { r: 255, g: 239, b: 213 }),
        named_colors()[113] == ("peachpuff", SRgb { r: 255, g: 218, b: 185 }),
        named_colors()[114] == ("peru", SRgb { r: 205, g: 133, b: 63 }),
        named_colors()[115] == ("pink", SRgb { r: 255, g: 192, b: 203 }),
        named_colors()[116] == ("plum", SRgb { r: 221, g: 160, b: 221 }),
        named_colors()[117] == ("powderblue", SRgb { r: 176, g: 224, b: 230 }),
        named_colors()[118] == ("purple", SRgb { r: 128, g: 0, b: 128 }),
        named_colors()[119] == ("rebeccapurple", SRgb { r: 102, g: 51, b: 153 }),
        named_colors()[120] == ("red", SRgb { r: 255, g: 0, b: 0 }),
        named_colors()[121] == ("rosybrown", SRgb { r: 188, g: 143, b: 143 }),
        named_colors()[122] == ("royalblue", SRgb { r: 65, g: 105, b: 225 }),
        named_colors()[123] == ("saddlebrown", SRgb { r: 139, g: 69, b: 19 }),
        named_colors()[124] == ("salmon", SRgb { r: 250, g: 128, b: 114 }),
        named_colors()[125] == ("sandybrown", SRgb { r: 244, g: 164, b: 96 }),
        named_colors()[126] == ("seagreen", SRgb { r: 46, g: 139, b: 87 }),
        named_colors()[127] == ("seashell", SRgb { r: 255, g: 245, b: 238 }),
        named_colors()[128] == ("sienna", SRgb { r: 160, g: 82, b: 45 }),
        named_colors()[129] == ("silver", SRgb { r: 192, g: 192, b: 192 }),
        named_colors()[130] == ("skyblue", SRgb { r: 135, g: 206, b: 235 }),
        named_colors()[131] == ("slateblue", SRgb { r: 106, g: 90, b: 205 }),
        named_colors()[132] == ("slategray", SRgb { r: 112, g: 128, b: 144 }),
        named_colors()[133] == ("slategrey", SRgb { r: 112, g: 128, b: 144 }),
        named_colors()[134] == ("snow", SRgb { r: 255, g: 250, b: 250 }),
        named_colors()[135] == ("springgreen", SRgb { r: 0, g: 255, b: 127 }),
        named_colors()[136] == ("steelblue", SRgb { r: 70, g: 130, b: 180 }),
        named_colors()[137] == ("tan", SRgb { r: 210, g: 180, b: 140 }),
        named_colors()[138] == ("teal", SRgb { r: 0, g: 128, b: 128 }),
        named_colors()[139] == ("thistle", SRgb { r: 216, g: 191, b: 216 }),
        named_colors()[140] == ("tomato", SRgb { r: 255, g: 99, b: 71 }),
        named_colors()[141] == ("turquoise", SRgb { r: 64, g: 224, b: 208 }),
        named_colors()[142] == ("violet", SRgb { r: 238, g: 130, b: 238 }),
        named_colors()[143] == ("wheat", SRgb { r: 245, g: 222, b: 179 }),
        named_colors()[144] == ("white", SRgb { r: 255, g: 255, b: 255 }),
        named_colors()[145] == ("whitesmoke", SRgb { r: 245, g: 245, b: 245 }),
        named_colors()[146] == ("yellow", SRgb { r: 255, g: 255, b: 0 }),
        named_colors()[147] == ("yellowgreen", SRgb { r: 154, g: 205, b: 50 }),
{
}

/// The color of the first entry of `table` whose name has the UTF-8 bytes
/// `name`, if any.
pub open spec fn lookup_named(table: Seq<(&'static str, SRgb)>, name: Seq<u8>) -> Option<SRgb>
    decreases table.len(),
{
    if table.len() == 0 {
        None
    } else if table[0].0.spec_bytes() == name {
        Some(table[0].1)
    } else {
        lookup_named(table.drop_first(), name)
    }
}

/// The names of the named colors.
pub open spec fn named_color_names() -> Seq<Seq<char>> {
    named_colors().map_values(|entry: (&'static str, SRgb)| entry.0@)
}

/// The names aliceblue to darkgreen come in increasing order.
proof fn lemma_names_sorted_0()
    ensures
        key_less("aliceblue"@, "antiquewhite"@),
        key_less("antiquewhite"@, "aqua"@),
        key_less("aqua"@, "aquamarine"@),
        key_less("aquamarine"@, "azure"@),
        key_less("azure"@, "beige"@),
        key_less("beige"@, "bisque"@),
        key_less("bisque"@, "black"@),
        key_less("black"@, "blanchedalmond"@),
        key_less("blanchedalmond"@, "blue"@),
        key_less("blue"@, "blueviolet"@),
        key_less("blueviolet"@, "brown"@),
        key_less("brown"@, "burlywood"@),
        key_less("burlywood"@, "cadetblue"@),
        key_less("cadetblue"@, "chartreuse"@),
        key_less("chartreuse"@, "chocolate"@),
        key_less("chocolate"@, "coral"@),
        key_less("coral"@, "cornflowerblue"@),
        key_less("cornflowerblue"@, "cornsilk"@),
        key_less("cornsilk"@, "crimson"@),
        key_less("crimson"@, "cyan"@),
        key_less("cyan"@, "darkblue"@),
        key_less("darkblue"@, "darkcyan"@),
        key_less("darkcyan"@, "darkgoldenrod"@),
        key_less("darkgoldenrod"@, "darkgray"@),
        key_less("darkgray"@, "darkgreen"@),
{
    reveal_strlit("aliceblue");
    reveal_strlit("antiquewhite");
    reveal_strlit("aqua");
    reveal_strlit("aquamarine");
    reveal_strlit("azure");
    reveal_strlit("beige");
    reveal_strlit("bisque");
    reveal_strlit("black");
    reveal_strlit("blanchedalmond");
    reveal_strlit("blue");
    reveal_strlit("blueviolet");
    reveal_strlit("brown");
    reveal_strlit("burlywood");
    reveal_strlit("cadetblue");
    reveal_strlit("chartreuse");
    reveal_strlit("chocolate");
    reveal_strlit("coral");
    reveal_strlit("cornflowerblue");
    reveal_strlit("cornsilk");
    reveal_strlit("crimson");
    reveal_strlit("cyan");
    reveal_strlit("darkblue");
    reveal_strlit("darkcyan");
    reveal_strlit("darkgoldenrod");
    reveal_strlit("darkgray");
    reveal_strlit("darkgreen");
    reveal_with_fuel(key_less, 14);
}

/// The names darkgreen to ghostwhite come in increasing order.
proof fn lemma_names_sorted_1()
    ensures
        key_less("darkgreen"@, "darkgrey"@),
        key_less("darkgrey"@, "darkkhaki"@),
        key_less("darkkhaki"@, "darkmagenta"@),
        key_less("darkmagenta"@, "darkolivegreen"@),
        key_less("darkolivegreen"@, "darkorange"@),
        key_less("darkorange"@, "darkorchid"@),
        key_less("darkorchid"@, "darkred"@),
        key_less("darkred"@, "darksalmon"@),
        key_less("darksalmon"@, "darkseagreen"@),
        key_less("darkseagreen"@, "darkslateblue"@),
        key_less("darkslateblue"@, "darkslategray"@),
        key_less("darkslategray"@, "darkslategrey"@),
        key_less("darkslategrey"@, "darkturquoise"@),
        key_less("darkturquoise"@, "darkviolet"@),
        key_less("darkviolet"@, "deeppink"@),
        key_less("deeppink"@, "deepskyblue"@),
        key_less("deepskyblue"@, "dimgray"@),
        key_less("dimgray"@, "dimgrey"@),
        key_less("dimgrey"@, "dodgerblue"@),
        key_less("dodgerblue"@, "firebrick"@),
        key_less("firebrick"@, "floralwhite"@),
        key_less("floralwhite"@, "forestgreen"@),
        key_less("forestgreen"@, "fuchsia"@),
        key_less("fuchsia"@, "gainsboro"@),
        key_less("gainsboro"@, "ghostwhite"@),
{
    reveal_strlit("darkgreen");
    reveal_strlit("darkgrey");
    reveal_strlit("darkkhaki");
    reveal_strlit("darkmagenta");
    reveal_strlit("darkolivegreen");
    reveal_strlit("darkorange");
    reveal_strlit("darkorchid");
    reveal_strlit("darkred");
    reveal_strlit("darksalmon");
    reveal_strlit("darkseagreen");
    reveal_strlit("darkslateblue");
    reveal_strlit("darkslategray");
    reveal_strlit("darkslategrey");
    reveal_strlit("darkturquoise");
    reveal_strlit("darkviolet");
    reveal_strlit("deeppink");
    reveal_strlit("deepskyblue");
    reveal_strlit("dimgray");
    reveal_strlit("dimgrey");
    reveal_strlit("dodgerblue");
    reveal_strlit("firebrick");
    reveal_strlit("floralwhite");
    reveal_strlit("forestgreen");
    reveal_strlit("fuchsia");
    reveal_strlit("gainsboro");
    reveal_strlit("ghostwhite");
    reveal_with_fuel(key_less, 14);
}

/// The names ghostwhite to lightsalmon come in increasing order.
proof fn lemma_names_sorted_2()
    ensures
        key_less("ghostwhite"@, "gold"@),
        key_less("gold"@, "goldenrod"@),
        key_less("goldenrod"@, "gray"@),
        key_less("gray"@, "green"@),
        key_less("green"@, "greenyellow"@),
        key_less("greenyellow"@, "grey"@),
        key_less("grey"@, "honeydew"@),
        key_less("honeydew"@, "hotpink"@),
        key_less("hotpink"@, "indianred"@),
        key_less("indianred"@, "indigo"@),
        key_less("indigo"@, "ivory"@),
        key_less("ivory"@, "khaki"@),
        key_less("khaki"@, "lavender"@),
        key_less("lavender"@, "lavenderblush"@),
        key_less("lavenderblush"@, "lawngreen"@),
        key_less("lawngreen"@, "lemonchiffon"@),
        key_less("lemonchiffon"@, "lightblue"@),
        key_less("lightblue"@, "lightcoral"@),
        key_less("lightcoral"@, "lightcyan"@),
        key_less("lightcyan"@, "lightgoldenrodyellow"@),
        key_less("lightgoldenrodyellow"@, "lightgray"@),
        key_less("lightgray"@, "lightgreen"@),
        key_less("lightgreen"@, "lightgrey"@),
        key_less("lightgrey"@, "lightpink"@),
        key_less("lightpink"@, "lightsalmon"@),
{
    reveal_strlit("ghostwhite");
    reveal_strlit("gold");
    reveal_strlit("goldenrod");
    reveal_strlit("gray");
    reveal_strlit("green");
    reveal_strlit("greenyellow");
    reveal_strlit("grey");
    reveal_strlit("honeydew");
    reveal_strlit("hotpink");
    reveal_strlit("indianred");
    reveal_strlit("indigo");
    reveal_strlit("ivory");
    reveal_strlit("khaki");
    reveal_strlit("lavender");
    reveal_strlit("lavenderblush");
    reveal_strlit("lawngreen");
    reveal_strlit("lemonchiffon");
    reveal_strlit("lightblue");
    reveal_strlit("lightcoral");
    reveal_strlit("lightcyan");
    reveal_strlit("lightgoldenrodyellow");
    reveal_strlit("lightgray");
    reveal_strlit("lightgreen");
    reveal_strlit("lightgrey");
    reveal_strlit("lightpink");
    reveal_strlit("lightsalmon");
    reveal_with_fuel(key_less, 14);
}

/// The names lightsalmon to navajowhite come in increasing order.
proof fn lemma_names_sorted_3()
    ensures
        key_less("lightsalmon"@, "lightseagreen"@),
        key_less("lightseagreen"@, "lightskyblue"@),
        key_less("lightskyblue"@, "lightslategray"@),
        key_less("lightslategray"@, "lightslategrey"@),
        key_less("lightslategrey"@, "lightsteelblue"@),
        key_less("lightsteelblue"@, "lightyellow"@),
        key_less("lightyellow"@, "lime"@),
        key_less("lime"@, "limegreen"@),
        key_less("limegreen"@, "linen"@),
        key_less("linen"@, "magenta"@),
        key_less("magenta"@, "maroon"@),
        key_less("maroon"@, "mediumaquamarine"@),
        key_less("mediumaquamarine"@, "mediumblue"@),
        key_less("mediumblue"@, "mediumorchid"@),
        key_less("mediumorchid"@, "mediumpurple"@),
        key_less("mediumpurple"@, "mediumseagreen"@),
        key_less("mediumseagreen"@, "mediumslateblue"@),
        key_less("mediumslateblue"@, "mediumspringgreen"@),
        key_less("mediumspringgreen"@, "mediumturquoise"@),
        key_less("mediumturquoise"@, "mediumvioletred"@),
        key_less("mediumvioletred"@, "midnightblue"@),
        key_less("midnightblue"@, "mintcream"@),
        key_less("mintcream"@, "mistyrose"@),
        key_less("mistyrose"@, "moccasin"@),
        key_less("moccasin"@, "navajowhite"@),
{
    reveal_strlit("lightsalmon");
    reveal_strlit("lightseagreen");
    reveal_strlit("lightskyblue");
    reveal_strlit("lightslategray");
    reveal_strlit("lightslategrey");
    reveal_strlit("lightsteelblue");
    reveal_strlit("lightyellow");
    reveal_strlit("lime");
    reveal_strlit("limegreen");
    reveal_strlit("linen");
    reveal_strlit("magenta");
    reveal_strlit("maroon");
    reveal_strlit("mediumaquamarine");
    reveal_strlit("mediumblue");
    reveal_strlit("mediumorchid");
    reveal_strlit("mediumpurple");
    reveal_strlit("mediumseagreen");
    reveal_strlit("mediumslateblue");
    reveal_strlit("mediumspringgreen");
    reveal_strlit("mediumturquoise");
    reveal_strlit("mediumvioletred");
    reveal_strlit("midnightblue");
    reveal_strlit("mintcream");
    reveal_strlit("mistyrose");
    reveal_strlit("moccasin");
    reveal_strlit("navajowhite");
    reveal_with_fuel(key_less, 14);
}

/// The names navajowhite to sandybrown come in increasing order.
proof fn lemma_names_sorted_4()
    ensures
        key_less("navajowhite"@, "navy"@),
        key_less("navy"@, "oldlace"@),
        key_less("oldlace"@, "olive"@),
        key_less("olive"@, "olivedrab"@),
        key_less("olivedrab"@, "orange"@),
        key_less("orange"@, "orangered"@),
        key_less("orangered"@, "orchid"@),
        key_less("orchid"@, "palegoldenrod"@),
        key_less("palegoldenrod"@, "palegreen"@),
        key_less("palegreen"@, "paleturquoise"@),
        key_less("paleturquoise"@, "palevioletred"@),
        key_less("palevioletred"@, "papayawhip"@),
        key_less("papayawhip"@, "peachpuff"@),
        key_less("peachpuff"@, "peru"@),
        key_less("peru"@, "pink"@),
        key_less("pink"@, "plum"@),
        key_less("plum"@, "powderblue"@),
        key_less("powderblue"@, "purple"@),
        key_less("purple"@, "rebeccapurple"@),
        key_less("rebeccapurple"@, "red"@),
        key_less("red"@, "rosybrown"@),
        key_less("rosybrown"@, "royalblue"@),
        key_less("royalblue"@, "saddlebrown"@),
        key_less("saddlebrown"@, "salmon"@),
        key_less("salmon"@, "sandybrown"@),
{
    reveal_strlit("navajowhite");
    reveal_strlit("navy");
    reveal_strlit("oldlace");
    reveal_strlit("olive");
    reveal_strlit("olivedrab");
    reveal_strlit("orange");
    reveal_strlit("orangered");
    reveal_strlit("orchid");
    reveal_strlit("palegoldenrod");
    reveal_strlit("palegreen");
    reveal_strlit("paleturquoise");
    reveal_strlit("palevioletred");
    reveal_strlit("papayawhip");
    reveal_strlit("peachpuff");
    reveal_strlit("peru");
    reveal_strlit("pink");
    reveal_strlit("plum");
    reveal_strlit("powderblue");
    reveal_strlit("purple");
    reveal_strlit("rebeccapurple");
    reveal_strlit("red");
    reveal_strlit("rosybrown");
    reveal_strlit("royalblue");
    reveal_strlit("saddlebrown");
    reveal_strlit("salmon");
    reveal_strlit("sandybrown");
    reveal_with_fuel(key_less, 14);
}

/// The names sandybrown to yellowgreen come in increasing order.
proof fn lemma_names_sorted_5()
    ensures
        key_less("sandybrown"@, "seagreen"@),
        key_less("seagreen"@, "seashell"@),
        key_less("seashell"@, "sienna"@),
        key_less("sienna"@, "silver"@),
        key_less("silver"@, "skyblue"@),
        key_less("skyblue"@, "slateblue"@),
        key_less("slateblue"@, "slategray"@),
        key_less("slategray"@, "slategrey"@),
        key_less("slategrey"@, "snow"@),
        key_less("snow"@, "springgreen"@),
        key_less("springgreen"@, "steelblue"@),
        key_less("steelblue"@, "tan"@),
        key_less("tan"@, "teal"@),
        key_less("teal"@, "thistle"@),
        key_less("thistle"@, "tomato"@),
        key_less("tomato"@, "turquoise"@),
        key_less("turquoise"@, "violet"@),
        key_less("violet"@, "wheat"@),
        key_less("wheat"@, "white"@),
        key_less("white"@, "whitesmoke"@),
        key_less("whitesmoke"@, "yellow"@),
        key_less("yellow"@, "yellowgreen"@),
{
    reveal_strlit("sandybrown");
    reveal_strlit("seagreen");
    reveal_strlit("seashell");
    reveal_strlit("sienna");
    reveal_strlit("silver");
    reveal_strlit("skyblue");
    reveal_strlit("slateblue");
    reveal_strlit("slategray");
    reveal_strlit("slategrey");
    reveal_strlit("snow");
    reveal_strlit("springgreen");
    reveal_strlit("steelblue");
    reveal_strlit("tan");
    reveal_strlit("teal");
    reveal_strlit("thistle");
    reveal_strlit("tomato");
    reveal_strlit("turquoise");
    reveal_strlit("violet");
    reveal_strlit("wheat");
    reveal_strlit("white");
    reveal_strlit("whitesmoke");
    reveal_strlit("yellow");
    reveal_strlit("yellowgreen");
    reveal_with_fuel(key_less, 14);
}

/// Keys where each comes before the next increase strictly.
proof fn lemma_chain_increasing(keys: Seq<Seq<char>>)
    requires
        forall|i: int| 0 <= i < keys.len() - 1 ==> #[trigger] key_less(keys[i], keys[i + 1]),
    ensures
        keys_increasing(keys),
    decreases keys.len(),
{
    if keys.len() > 1 {
        let front = keys.drop_last();
        assert forall|i: int| 0 <= i < front.len() - 1 implies #[trigger] key_less(front[i], front[i + 1]) by {
            assert(key_less(keys[i], keys[i + 1]));
        }
        lemma_chain_increasing(front);
        let n = keys.len() - 1;
        let m = n - 1;
        assert(key_less(keys[m], keys[m + 1]));
        assert forall|i: int, j: int| 0 <= i < j < keys.len() implies key_less(#[trigger] keys[i], #[trigger] keys[j]) by {
            if j < n {
                assert(key_less(front[i], front[j]));
            } else if i < n - 1 {
                assert(key_less(front[i], front[n - 1]));
                lemma_key_less_transitive(keys[i], keys[n - 1], keys[n]);
            }
        }
    }
}

/// The names of the named colors increase strictly, so no name occurs
/// twice.
pub proof fn lemma_named_color_names_increase()
    ensures
        named_color_names().len() == 148,
        keys_increasing(named_color_names()),
{
    lemma_named_colors_are_css_keywords();
    lemma_names_sorted_0();
    lemma_names_sorted_1();
    lemma_names_sorted_2();
    lemma_names_sorted_3();
    lemma_names_sorted_4();
    lemma_names_sorted_5();
    let names = named_color_names();
    assert forall|i: int| 0 <= i < names.len() - 1 implies #[trigger] key_less(names[i], names[i + 1]) by {
        assert(names[i] == named_colors()[i].0@);
        assert(names[i + 1] == named_colors()[i + 1].0@);
    }
    lemma_chain_increasing(names);
}

/// In a table whose names all differ, looking up the name of an entry finds
/// that entry's color.
pub proof fn lemma_lookup_finds_entry(table: Seq<(&'static str, SRgb)>, k: int)
    requires
        0 <= k < table.len(),
        forall|i: int, j: int| 0 <= i < j < table.len() ==> (#[trigger] table[i]).0@ != (#[trigger] table[j]).0@,
    ensures
        lookup_named(table, table[k].0.spec_bytes()) == Some(table[k].1),
    decreases k,
{
    if k > 0 {
        assert(table[0].0@ != table[k].0@);
        if table[0].0.spec_bytes() == table[k].0.spec_bytes() {
            vstd::utf8::encode_utf8_decode_utf8(table[0].0@);
            vstd::utf8::encode_utf8_decode_utf8(table[k].0@);
        }
        let rest = table.drop_first();
        assert forall|i: int, j: int| 0 <= i < j < rest.len() implies (#[trigger] rest[i]).0@ != (#[trigger] rest[j]).0@ by {
            assert(rest[i] == table[i + 1] && rest[j] == table[j + 1]);
        }
        lemma_lookup_finds_entry(rest, k - 1);
        assert(rest[k - 1] == table[k]);
    }
}

/// Looking up a name finds nothing exactly where no entry has that name.
pub proof fn lemma_lookup_misses(table: Seq<(&'static str, SRgb)>, name: Seq<u8>)
    ensures
        lookup_named(table, name) is None <==> forall|k: int| 0 <= k < table.len() ==> (#[trigger] table[k]).0.spec_bytes() != name,
    decreases table.len(),
{
    if table.len() > 0 {
        let rest = table.drop_first();
        lemma_lookup_misses(rest, name);
        if lookup_named(table, name) is None {
            assert forall|k: int| 0 <= k < table.len() implies (#[trigger] table[k]).0.spec_bytes() != name by {
                if k > 0 {
                    assert(rest[k - 1] == table[k]);
                }
            }
        } else if table[0].0.spec_bytes() != name {
            let k = choose|k: int| 0 <= k < rest.len() && (#[trigger] rest[k]).0.spec_bytes() == name;
            assert(table[k + 1] == rest[k]);
        }
    }
}

/// Resolving the name of a named color gives its CSS value: for every
/// entry of the table, looking up its name finds its color; and a name
/// that is not in the table resolves to nothing.
pub proof fn lemma_named_colors_resolve()
    ensures
        forall|k: int| 0 <= k < named_colors().len() ==> lookup_named(named_colors(), (#[trigger] named_colors()[k]).0.spec_bytes())
            == Some(named_colors()[k].1),
        forall|name: Seq<u8>| lookup_named(named_colors(), name) is None <==> forall|k: int| 0 <= k < named_colors().len()
            ==> (#[trigger] named_colors()[k]).0.spec_bytes() != name,
{
    lemma_named_color_names_increase();
    let table = named_colors();
    let names = named_color_names();
    assert forall|i: int, j: int| 0 <= i < j < table.len() implies (#[trigger] table[i]).0@ != (#[trigger] table[j]).0@ by {
        assert(names[i] == table[i].0@ && names[j] == table[j].0@);
        lemma_increasing_distinct(names, i, j);
    }
    assert forall|k: int| 0 <= k < table.len() implies lookup_named(table, (#[trigger] table[k]).0.spec_bytes()) == Some(table[k].1) by {
        lemma_lookup_finds_entry(table, k);
    }
    assert forall|name: Seq<u8>| lookup_named(table, name) is None <==> forall|k: int| 0 <= k < table.len()
        ==> (#[trigger] table[k]).0.spec_bytes() != name by {
        lemma_lookup_misses(table, name);
    }
}

/// Checks whether two byte strings are equal.
pub fn bytes_eq(a: &[u8], b: &[u8]) -> (r: bool)
    ensures
        r == (a@ == b@),
{
    if a.len() != b.len() {
        return false;
    }
    let mut i: usize = 0;
    while i < a.len()
        invariant
            a.len() == b.len(),
            i <= a.len(),
            forall|j: int| 0 <= j < i ==> a@[j] == b@[j],
        decreases a.len() - i,
    {
        if a[i] != b[i] {
            return false;
        }
        i = i + 1;
    }
    assert(a@ =~= b@);
    true
}

/// Looks up a CSS named color, such as `"aliceblue"`.
pub fn resolve_named(name: &str) -> (r: Option<SRgb>)
    ensures
        r == lookup_named(named_colors(), name.spec_bytes()),
{
    let table = [
        ("aliceblue", SRgb { r: 240, g: 248, b: 255 }),
        ("antiquewhite", SRgb { r: 250, g: 235, b: 215 }),
        ("aqua", SRgb { r: 0, g: 255, b: 255 }),
        ("aquamarine", SRgb { r: 127, g: 255, b: 212 }),
        ("azure", SRgb { r: 240, g: 255, b: 255 }),
        ("beige", SRgb { r: 245, g: 245, b: 220 }),
        ("bisque", SRgb { r: 255, g: 228, b: 196 }),
        ("black", SRgb { r: 0, g: 0, b: 0 }),
        ("blanchedalmond", SRgb { r: 255, g: 235, b: 205 }),
        ("blue", SRgb { r: 0, g: 0, b: 255 }),
        ("blueviolet", SRgb { r: 138, g: 43, b: 226 }),
        ("brown", SRgb { r: 165, g: 42, b: 42 }),
        ("burlywood", SRgb { r: 222, g: 184, b: 135 }),
        ("cadetblue", SRgb { r: 95, g: 158, b: 160 }),
        ("chartreuse", SRgb { r: 127, g: 255, b: 0 }),
        ("chocolate", SRgb { r: 210, g: 105, b: 30 }),
        ("coral", SRgb { r: 255, g: 127, b: 80 }),
        ("cornflowerblue", SRgb { r: 100, g: 149, b: 237 }),
        ("cornsilk", SRgb { r: 255, g: 248, b: 220 }),
        ("crimson", SRgb { r: 220, g: 20, b: 60 }),
        ("cyan", SRgb { r: 0, g: 255, b: 255 }),
        ("darkblue", SRgb { r: 0, g: 0, b: 139 }),
        ("darkcyan", SRgb { r: 0, g: 139, b: 139 }),
        ("darkgoldenrod", SRgb { r: 184, g: 134, b: 11 }),
        ("darkgray", SRgb { r: 169, g: 169, b: 169 }),
        ("darkgreen", SRgb { r: 0, g: 100, b: 0 }),
        ("darkgrey", SRgb { r: 169, g: 169, b: 169 }),
        ("darkkhaki", SRgb { r: 189, g: 183, b: 107 }),
        ("darkmagenta", SRgb { r: 139, g: 0, b: 139 }),
        ("darkolivegreen", SRgb { r: 85, g: 107, b: 47 }),
        ("darkorange", SRgb { r: 255, g: 140, b: 0 }),
        ("darkorchid", SRgb { r: 153, g: 50, b: 204 }),
        ("darkred", SRgb { r: 139, g: 0, b: 0 }),
        ("darksalmon", SRgb { r: 233, g: 150, b: 122 }),
        ("darkseagreen", SRgb { r: 143, g: 188, b: 143 }),
        ("darkslateblue", SRgb { r: 72, g: 61, b: 139 }),
        ("darkslategray", SRgb { r: 47, g: 79, b: 79 }),
        ("darkslategrey", SRgb { r: 47, g: 79, b: 79 }),
        ("darkturquoise", SRgb { r: 0, g: 206, b: 209 }),
        ("darkviolet", SRgb { r: 148, g: 0, b: 211 }),
        ("deeppink", SRgb { r: 255, g: 20, b: 147 }),
        ("deepskyblue", SRgb { r: 0, g: 191, b: 255 }),
        ("dimgray", SRgb { r: 105, g: 105, b: 105 }),
        ("dimgrey", SRgb { r: 105, g: 105, b: 105 }),
        ("dodgerblue", SRgb { r: 30, g: 144, b: 255 }),
        ("firebrick", SRgb { r: 178, g: 34, b: 34 }),
        ("floralwhite", SRgb { r: 255, g: 250, b: 240 }),
        ("forestgreen", SRgb { r: 34, g: 139, b: 34 }),
        ("fuchsia", SRgb { r: 255, g: 0, b: 255 }),
        ("gainsboro", SRgb { r: 220, g: 220, b: 220 }),
        ("ghostwhite", SRgb { r: 248, g: 248, b: 255 }),
        ("gold", SRgb { r: 255, g: 215, b: 0 }),
        ("goldenrod", SRgb { r: 218, g: 165, b: 32 }),
        ("gray", SRgb { r: 128, g: 128, b: 128 }),
        ("green", SRgb { r: 0, g: 128, b: 0 }),
        ("greenyellow", SRgb { r: 173, g: 255, b: 47 }),
        ("grey", SRgb { r: 128, g: 128, b: 128 }),
        ("honeydew", SRgb { r: 240, g: 255, b: 240 }),
        ("hotpink", SRgb { r: 255, g: 105, b: 180 }),
        ("indianred", SRgb { r: 205, g: 92, b: 92 }),
        ("indigo", SRgb { r: 75, g: 0, b: 130 }),
        ("ivory", SRgb { r: 255, g: 255, b: 240 }),
        ("khaki", SRgb { r: 240, g: 230, b: 140 }),
        ("lavender", SRgb { r: 230, g: 230, b: 250 }),
        ("lavenderblush", SRgb { r: 255, g: 240, b: 245 }),
        ("lawngreen", SRgb { r: 124, g: 252, b: 0 }),
        ("lemonchiffon", SRgb { r: 255, g: 250, b: 205 }),
        ("lightblue", SRgb { r: 173, g: 216, b: 230 }),
        ("lightcoral", SRgb { r: 240, g: 128, b: 128 }),
        ("lightcyan", SRgb { r: 224, g: 255, b: 255 }),
        ("lightgoldenrodyellow", SRgb { r: 250, g: 250, b: 210 }),
        ("lightgray", SRgb { r: 211, g: 211, b: 211 }),
        ("lightgreen", SRgb { r: 144, g: 238, b: 144 }),
        ("lightgrey", SRgb { r: 211, g: 211, b: 211 }),
        ("lightpink", SRgb { r: 255, g: 182, b: 193 }),
        ("lightsalmon", SRgb { r: 255, g: 160, b: 122 }),
        ("lightseagreen", SRgb { r: 32, g: 178, b: 170 }),
        ("lightskyblue", SRgb { r: 135, g: 206, b: 250 }),
        ("lightslategray", SRgb { r: 119, g: 136, b: 153 }),
        ("lightslategrey", SRgb { r: 119, g: 136, b: 153 }),
        ("lightsteelblue", SRgb { r: 176, g: 196, b: 222 }),
        ("lightyellow", SRgb { r: 255, g: 255, b: 224 }),
        ("lime", SRgb { r: 0, g: 255, b: 0 }),
        ("limegreen", SRgb { r: 50, g: 205, b: 50 }),
        ("linen", SRgb { r: 250, g: 240, b: 230 }),
        ("magenta", SRgb { r: 255, g: 0, b: 255 }),
        ("maroon", SRgb { r: 128, g: 0, b: 0 }),
        ("mediumaquamarine", SRgb { r: 102, g: 205, b: 170 }),
        ("mediumblue", SRgb { r: 0, g: 0, b: 205 }),
        ("mediumorchid", SRgb { r: 186, g: 85, b: 211 }),
        ("mediumpurple", SRgb { r: 147, g: 112, b: 219 }),
        ("mediumseagreen", SRgb { r: 60, g: 179, b: 113 }),
        ("mediumslateblue", SRgb { r: 123, g: 104, b: 238 }),
        ("mediumspringgreen", SRgb { r: 0, g: 250, b: 154 }),
        ("mediumturquoise", SRgb { r: 72, g: 209, b: 204 }),
        ("mediumvioletred", SRgb { r: 199, g: 21, b: 133 }),
        ("midnightblue", SRgb { r: 25, g: 25, b: 112 }),
        ("mintcream", SRgb { r: 245, g: 255, b: 250 }),
        ("mistyrose", SRgb { r: 255, g: 228, b: 225 }),
        ("moccasin", SRgb { r: 255, g: 228, b: 181 }),
        ("navajowhite", SRgb { r: 255, g: 222, b: 173 }),
        ("navy", SRgb { r: 0, g: 0, b: 128 }),
        ("oldlace", SRgb { r: 253, g: 245, b: 230 }),
        ("olive", SRgb { r: 128, g: 128, b: 0 }),
        ("olivedrab", SRgb { r: 107, g: 142, b: 35 }),
        ("orange", SRgb { r: 255, g: 165, b: 0 }),
        ("orangered", SRgb { r: 255, g: 69, b: 0 }),
        ("orchid", SRgb { r: 218, g: 112, b: 214 }),
        ("palegoldenrod", SRgb { r: 238, g: 232, b: 170 }),
        ("palegreen", SRgb { r: 152, g: 251, b: 152 }),
        ("paleturquoise", SRgb { r: 175, g: 238, b: 238 }),
        ("palevioletred", SRgb { r: 219, g: 112, b: 147 }),
        ("papayawhip", SRgb { r: 255, g: 239, b: 213 }),
        ("peachpuff", SRgb { r: 255, g: 218, b: 185 }),
        ("peru", SRgb { r: 205, g: 133, b: 63 }),
        ("pink", SRgb { r: 255, g: 192, b: 203 }),
        ("plum", SRgb { r: 221, g: 160, b: 221 }),
        ("powderblue", SRgb { r: 176, g: 224, b: 230 }),
        ("purple", SRgb { r: 128, g: 0, b: 128 }),
        ("rebeccapurple", SRgb { r: 102, g: 51, b: 153 }),
        ("red", SRgb { r: 255, g: 0, b: 0 }),
        ("rosybrown", SRgb { r: 188, g: 143, b: 143 }),
        ("royalblue", SRgb { r: 65, g: 105, b: 225 }),
        ("saddlebrown", SRgb { r: 139, g: 69, b: 19 }),
        ("salmon", SRgb { r: 250, g: 128, b: 114 }),
        ("sandybrown", SRgb { r: 244, g: 164, b: 96 }),
        ("seagreen", SRgb { r: 46, g: 139, b: 87 }),
        ("seashell", SRgb { r: 255, g: 245, b: 238 }),
        ("sienna", SRgb { r: 160, g: 82, b: 45 }),
        ("silver", SRgb { r: 192, g: 192, b: 192 }),
        ("skyblue", SRgb { r: 135, g: 206, b: 235 }),
        ("slateblue", SRgb { r: 106, g: 90, b: 205 }),
        ("slategray", SRgb { r: 112, g: 128, b: 144 }),
        ("slategrey", SRgb { r: 112, g: 128, b: 144 }),
        ("snow", SRgb { r: 255, g: 250, b: 250 }),
        ("springgreen", SRgb { r: 0, g: 255, b: 127 }),
        ("steelblue", SRgb { r: 70, g: 130, b: 180 }),
        ("tan", SRgb { r: 210, g: 180, b: 140 }),
        ("teal", SRgb { r: 0, g: 128, b: 128 }),
        ("thistle", SRgb { r: 216, g: 191, b: 216 }),
        ("tomato", SRgb { r: 255, g: 99, b: 71 }),
        ("turquoise", SRgb { r: 64, g: 224, b: 208 }),
        ("violet", SRgb { r: 238, g: 130, b: 238 }),
        ("wheat", SRgb { r: 245, g: 222, b: 179 }),
        ("white", SRgb { r: 255, g: 255, b: 255 }),
        ("whitesmoke", SRgb { r: 245, g: 245, b: 245 }),
        ("yellow", SRgb { r: 255, g: 255, b: 0 }),
        ("yellowgreen", SRgb { r: 154, g: 205, b: 50 })
    ];
    proof {
        assert(table@ =~= named_colors());
        assert(table@.skip(0) =~= table@);
    }
    let key = name.as_bytes();
    let mut i: usize = 0;
    while i < table.len()
        invariant
            i <= table@.len(),
            key@ == name.spec_bytes(),
            table@ == named_colors(),
            lookup_named(table@, key@) == lookup_named(table@.skip(i as int), key@),
        decreases table.len() - i,
    {
        let (entry_name, entry_color) = table[i];
        proof {
            assert(table@.skip(i as int)[0] == table@[i as int]);
            assert(table@.skip(i as int).drop_first() =~= table@.skip(i as int + 1));
        }
        if bytes_eq(entry_name.as_bytes(), key) {
            return Some(entry_color);
        }
        i = i + 1;
    }
    proof {
        assert(table@.skip(i as int).len() == 0);
    }
    None
}

// The grammar of color strings such as `rgb(255 0 12 0.5)`.
//
// A color string is `<prefix>(<c> <c> <c>)` or `<prefix>(<c> <c> <c> <a>)`,
// where each `<c>` is a channel (for `rgb`: one to three decimal digits with a
// value of at most 255; otherwise a decimal number) and `<a>` is a decimal
// number. A decimal number is an optional sign, an optional run of digits
// followed by a dot, and a nonempty run of digits. The first match in the
// string counts; text before and after it is ignored.

/// A decimal digit.
pub open spec fn is_digit(b: u8) -> bool {
    48 <= b <= 57
}

/// Characters that may occur in a decimal number.
pub open spec fn is_number_char(b: u8) -> bool {
    is_digit(b) || b == 43 || b == 45 || b == 46
}

/// Characters that may occur in a token of the given kind.
pub open spec fn in_token(b: u8, channel: bool) -> bool {
    if channel {
        is_digit(b)
    } else {
        is_number_char(b)
    }
}

/// Every character of `s` is a decimal digit.
pub open spec fn all_digits(s: Seq<u8>) -> bool {
    forall|k: int| 0 <= k < s.len() ==> is_digit(#[trigger] s[k])
}

/// The value of a run of decimal digits.
pub open spec fn decimal_value(s: Seq<u8>) -> nat
    decreases s.len(),
{
    if s.len() == 0 {
        0
    } else {
        decimal_value(s.drop_last()) * 10 + (s.last() - 48) as nat
    }
}

/// One to three digits with a value of at most 255.
pub open spec fn is_channel_text(s: Seq<u8>) -> bool {
    1 <= s.len() <= 3 && all_digits(s) && decimal_value(s) <= 255
}

/// `s` without a leading sign.
pub open spec fn unsigned_part(s: Seq<u8>) -> Seq<u8> {
    if s.len() > 0 && (s[0] == 43 || s[0] == 45) {
        s.drop_first()
    } else {
        s
    }
}

/// A decimal number: `[+-]?([0-9]*[.])?[0-9]+`.
pub open spec fn is_number_text(s: Seq<u8>) -> bool {
    let t = unsigned_part(s);
    ||| t.len() > 0 && all_digits(t)
    ||| exists|k: int|
        0 <= k && k + 1 < t.len() && #[trigger] t[k] == 46 && all_digits(t.take(k)) && all_digits(
            t.skip(k + 1),
        )
}

/// A channel of an `rgb(..)` string, or a decimal number otherwise.
pub open spec fn is_token_text(s: Seq<u8>, channel: bool) -> bool {
    if channel {
        is_channel_text(s)
    } else {
        is_number_text(s)
    }
}

/// The end of the longest run of token characters that starts at `a`.
pub open spec fn token_end(s: Seq<u8>, a: int, channel: bool) -> int
    decreases s.len() - a,
{
    if a < 0 || a >= s.len() || !in_token(s[a], channel) {
        a
    } else {
        token_end(s, a + 1, channel)
    }
}

/// The spans of the channels (and of the alpha value, if present) of a color
/// string of the given prefix that starts at `i`, if one does.
#[verifier::opaque]
pub open spec fn query_at(s: Seq<u8>, i: int, prefix: Seq<u8>, channel: bool) -> Option<
    Seq<(int, int)>,
> {
    let p0 = i + 4;
    let e0 = token_end(s, p0, channel);
    let p1 = e0 + 1;
    let e1 = token_end(s, p1, channel);
    let p2 = e1 + 1;
    let e2 = token_end(s, p2, channel);
    let spans = seq![(p0, e0), (p1, e1), (p2, e2)];
    if 0 <= i && i + 4 <= s.len() && s.subrange(i, i + 3) == prefix && s[i + 3] == 40
        && is_token_text(s.subrange(p0, e0), channel) && e0 < s.len() && s[e0] == 32
        && is_token_text(s.subrange(p1, e1), channel) && e1 < s.len() && s[e1] == 32
        && is_token_text(s.subrange(p2, e2), channel) && e2 < s.len() {
        if s[e2] == 41 {
            Some(spans)
        } else if s[e2] == 32 {
            let p3 = e2 + 1;
            let e3 = token_end(s, p3, false);
            if is_number_text(s.subrange(p3, e3)) && e3 < s.len() && s[e3] == 41 {
                Some(spans.push((p3, e3)))
            } else {
                None
            }
        } else {
            None
        }
    } else {
        None
    }
}

/// Whether a color string of the given prefix starts at `i` and at no
/// earlier position of `s`.
pub open spec fn first_query_at(s: Seq<u8>, i: int, prefix: Seq<u8>, channel: bool) -> bool {
    &&& 0 <= i < s.len()
    &&& query_at(s, i, prefix, channel) is Some
    &&& forall|j: int| 0 <= j < i ==> query_at(s, j, prefix, channel) is None
}

/// Whether a color string of the given prefix occurs anywhere in `s`.
pub open spec fn has_query(s: Seq<u8>, prefix: Seq<u8>, channel: bool) -> bool {
    exists|i: int| 0 <= i < s.len() && query_at(s, i, prefix, channel) is Some
}

/// A token that starts inside the string ends inside the string, not
/// before its start.
pub proof fn lemma_token_end_bounds(s: Seq<u8>, a: int, channel: bool)
    requires
        0 <= a <= s.len(),
    ensures
        a <= token_end(s, a, channel) <= s.len(),
    decreases s.len() - a,
{
    if a < s.len() && in_token(s[a], channel) {
        lemma_token_end_bounds(s, a + 1, channel);
    }
}

/// Whether `b` may occur in a token of the given kind.
fn token_char(b: u8, channel: bool) -> (r: bool)
    ensures
        r == in_token(b, channel),
{
    if channel {
        48 <= b && b <= 57
    } else {
        (48 <= b && b <= 57) || b == 43 || b == 45 || b == 46
    }
}

/// Returns the end of the longest run of token characters that starts at `a`.
fn scan_token(s: &[u8], a: usize, channel: bool) -> (e: usize)
    requires
        a <= s@.len(),
    ensures
        e == token_end(s@, a as int, channel),
        a <= e <= s@.len(),
        forall|k: int| a <= k < e ==> in_token(#[trigger] s@[k], channel),
{
    let mut e = a;
    while e < s.len() && token_char(s[e], channel)
        invariant
            a <= e <= s@.len(),
            token_end(s@, a as int, channel) == token_end(s@, e as int, channel),
            forall|k: int| a <= k < e ==> in_token(#[trigger] s@[k], channel),
        decreases s@.len() - e,
    {
        e = e + 1;
    }
    e
}

/// Reads `s[a..e]` as a channel value.
fn channel_value(s: &[u8], a: usize, e: usize) -> (r: Option<u8>)
    requires
        a <= e <= s@.len(),
        forall|k: int| a <= k < e ==> is_digit(#[trigger] s@[k]),
    ensures
        r is Some <==> is_channel_text(s@.subrange(a as int, e as int)),
        r matches Some(v) ==> v == decimal_value(s@.subrange(a as int, e as int)),
{
    if e - a < 1 || e - a > 3 {
        return None;
    }
    let mut v: u32 = 0;
    let mut k = a;
    while k < e
        invariant
            a <= k <= e <= s@.len(),
            e - a <= 3,
            forall|j: int| a <= j < e ==> is_digit(#[trigger] s@[j]),
            v == decimal_value(s@.subrange(a as int, k as int)),
            k - a <= 0 ==> v == 0,
            k - a <= 1 ==> v < 10,
            k - a <= 2 ==> v < 100,
            v < 1000,
        decreases e - k,
    {
        assert(s@.subrange(a as int, k as int + 1).drop_last() =~= s@.subrange(a as int, k as int));
        assert(is_digit(s@[k as int]));
        v = v * 10 + (s[k] - 48) as u32;
        k = k + 1;
    }
    assert(all_digits(s@.subrange(a as int, e as int)));
    if v <= 255 {
        Some(v as u8)
    } else {
        None
    }
}

/// Checks whether `s[a..e]`, made of number characters, is a decimal number.
fn number_valid(s: &[u8], a: usize, e: usize) -> (r: bool)
    requires
        a <= e <= s@.len(),
        forall|k: int| a <= k < e ==> is_number_char(#[trigger] s@[k]),
    ensures
        r == is_number_text(s@.subrange(a as int, e as int)),
{
    let ghost whole = s@.subrange(a as int, e as int);
    let mut t0 = a;
    if a < e && (s[a] == 43 || s[a] == 45) {
        t0 = a + 1;
    }
    let ghost t = s@.subrange(t0 as int, e as int);
    assert(unsigned_part(whole) =~= t);
    let mut k = t0;
    while k < e && 48 <= s[k] && s[k] <= 57
        invariant
            t0 <= k <= e <= s@.len(),
            forall|j: int| t0 <= j < k ==> is_digit(#[trigger] s@[j]),
        decreases e - k,
    {
        k = k + 1;
    }
    let ghost kk = k - t0;
    assert(all_digits(t.take(kk)));
    if k == e {
        assert(t =~= t.take(kk));
        return k > t0;
    }
    assert(!is_digit(t[kk]));
    if s[k] != 46 {
        assert forall|k2: int|
            0 <= k2 && k2 + 1 < t.len() && #[trigger] t[k2] == 46 implies !(all_digits(t.take(k2))
            && all_digits(t.skip(k2 + 1))) by {
            if k2 < kk {
                assert(t[k2] == s@[t0 + k2]);
            } else if k2 > kk {
                assert(t.take(k2)[kk] == t[kk]);
            }
        }
        return false;
    }
    let mut m = k + 1;
    if m >= e {
        assert forall|k2: int|
            0 <= k2 && k2 + 1 < t.len() && #[trigger] t[k2] == 46 implies !(all_digits(t.take(k2))
            && all_digits(t.skip(k2 + 1))) by {
            if k2 < kk {
                assert(t[k2] == s@[t0 + k2]);
            } else if k2 > kk {
                assert(t.take(k2)[kk] == t[kk]);
            }
        }
        return false;
    }
    while m < e && 48 <= s[m] && s[m] <= 57
        invariant
            k + 1 <= m <= e <= s@.len(),
            forall|j: int| k + 1 <= j < m ==> is_digit(#[trigger] s@[j]),
        decreases e - m,
    {
        m = m + 1;
    }
    if m == e {
        assert(all_digits(t.skip(kk + 1))) by {
            assert forall|j: int| 0 <= j < t.skip(kk + 1).len() implies is_digit(
                #[trigger] t.skip(kk + 1)[j],
            ) by {
                assert(t.skip(kk + 1)[j] == s@[k + 1 + j]);
            }
        }
        assert(t[kk] == 46);
        true
    } else {
        assert(!is_digit(s@[m as int]));
        assert forall|k2: int|
            0 <= k2 && k2 + 1 < t.len() && #[trigger] t[k2] == 46 implies !(all_digits(t.take(k2))
            && all_digits(t.skip(k2 + 1))) by {
            if k2 < kk {
                assert(t[k2] == s@[t0 + k2]);
            } else if k2 > kk {
                assert(t.take(k2)[kk] == t[kk]);
            } else {
                assert(t.skip(k2 + 1)[m - k - 1] == s@[m as int]);
            }
        }
        assert(!all_digits(t)) by {
            assert(t[kk] == 46);
        }
        false
    }
}

/// Checks whether `s[a..e]`, made of token characters, is a token.
fn token_valid(s: &[u8], a: usize, e: usize, channel: bool) -> (r: bool)
    requires
        a <= e <= s@.len(),
        forall|k: int| a <= k < e ==> in_token(#[trigger] s@[k], channel),
    ensures
        r == is_token_text(s@.subrange(a as int, e as int), channel),
{
    if channel {
        channel_value(s, a, e).is_some()
    } else {
        number_valid(s, a, e)
    }
}

/// The spans of a color string as integers.
pub open spec fn spans_of(channels: [(usize, usize); 3], alpha: Option<(usize, usize)>) -> Seq<
    (int, int),
> {
    let base = seq![
        (channels[0].0 as int, channels[0].1 as int),
        (channels[1].0 as int, channels[1].1 as int),
        (channels[2].0 as int, channels[2].1 as int),
    ];
    match alpha {
        Some(a) => base.push((a.0 as int, a.1 as int)),
        None => base,
    }
}

/// Matches a color string of the given prefix that starts at `i`.
fn match_query_at(s: &[u8], i: usize, prefix: &[u8], channel: bool) -> (r: Option<
    ([(usize, usize); 3], Option<(usize, usize)>),
>)
    requires
        prefix@.len() == 3,
        i < s@.len(),
    ensures
        match r {
            Some(q) => query_at(s@, i as int, prefix@, channel) == Some(spans_of(q.0, q.1)),
            None => query_at(s@, i as int, prefix@, channel) is None,
        },
{
    reveal(query_at);
    let len = s.len();
    if len - i < 4 {
        return None;
    }
    if !(s[i] == prefix[0] && s[i + 1] == prefix[1] && s[i + 2] == prefix[2]) {
        assert(s@.subrange(i as int, i + 3)[0] == s@[i as int]);
        assert(s@.subrange(i as int, i + 3)[1] == s@[i + 1]);
        assert(s@.subrange(i as int, i + 3)[2] == s@[i + 2]);
        return None;
    }
    assert(s@.subrange(i as int, i + 3) =~= prefix@);
    if s[i + 3] != 40 {
        return None;
    }
    let p0 = i + 4;
    let e0 = scan_token(s, p0, channel);
    if !token_valid(s, p0, e0, channel) || e0 >= len || s[e0] != 32 {
        return None;
    }
    let p1 = e0 + 1;
    let e1 = scan_token(s, p1, channel);
    if !token_valid(s, p1, e1, channel) || e1 >= len || s[e1] != 32 {
        return None;
    }
    let p2 = e1 + 1;
    let e2 = scan_token(s, p2, channel);
    if !token_valid(s, p2, e2, channel) || e2 >= len {
        return None;
    }
    let channels = [(p0, e0), (p1, e1), (p2, e2)];
    if s[e2] == 41 {
        let r = Some((channels, None));
        assert(spans_of(channels, None) =~= seq![
            (p0 as int, e0 as int),
            (p1 as int, e1 as int),
            (p2 as int, e2 as int),
        ]);
        r
    } else if s[e2] == 32 {
        let p3 = e2 + 1;
        let e3 = scan_token(s, p3, false);
        if number_valid(s, p3, e3) && e3 < len && s[e3] == 41 {
            assert(spans_of(channels, Some((p3, e3))) =~= seq![
                (p0 as int, e0 as int),
                (p1 as int, e1 as int),
                (p2 as int, e2 as int),
                (p3 as int, e3 as int),
            ]);
            Some((channels, Some((p3, e3))))
        } else {
            None
        }
    } else {
        None
    }
}

/// The spans of the first color string of the given prefix in `s`, if any.
pub open spec fn first_query(s: Seq<u8>, prefix: Seq<u8>, channel: bool) -> Option<Seq<(int, int)>> {
    if has_query(s, prefix, channel) {
        query_at(s, choose|i: int| first_query_at(s, i, prefix, channel), prefix, channel)
    } else {
        None
    }
}

/// When a string starts with a color string, that is its first one.
pub proof fn lemma_first_query_at_start(s: Seq<u8>, prefix: Seq<u8>, channel: bool)
    requires
        s.len() > 0,
        query_at(s, 0, prefix, channel) is Some,
    ensures
        first_query(s, prefix, channel) == query_at(s, 0, prefix, channel),
{
    assert(first_query_at(s, 0, prefix, channel));
    let k = choose|k: int| first_query_at(s, k, prefix, channel);
    lemma_first_query_at_unique(s, prefix, channel, 0, k);
}

/// There is at most one first match.
pub proof fn lemma_first_query_at_unique(s: Seq<u8>, prefix: Seq<u8>, channel: bool, i: int, j: int)
    requires
        first_query_at(s, i, prefix, channel),
        first_query_at(s, j, prefix, channel),
    ensures
        i == j,
{
    if i < j {
        assert(query_at(s, i, prefix, channel) is None);
    } else if j < i {
        assert(query_at(s, j, prefix, channel) is None);
    }
}

/// Finds the first color string of the given prefix in `s`.
fn find_query(s: &[u8], prefix: &[u8], channel: bool) -> (r: Option<
    ([(usize, usize); 3], Option<(usize, usize)>),
>)
    requires
        prefix@.len() == 3,
    ensures
        match r {
            Some(q) => first_query(s@, prefix@, channel) == Some(spans_of(q.0, q.1)),
            None => first_query(s@, prefix@, channel) is None,
        },
{
    let mut i: usize = 0;
    while i < s.len()
        invariant
            prefix@.len() == 3,
            i <= s@.len(),
            forall|j: int| 0 <= j < i ==> query_at(s@, j, prefix@, channel) is None,
        decreases s@.len() - i,
    {
        let q = match_query_at(s, i, prefix, channel);
        if q.is_some() {
            proof {
                assert(first_query_at(s@, i as int, prefix@, channel));
                let k = choose|k: int| first_query_at(s@, k, prefix@, channel);
                lemma_first_query_at_unique(s@, prefix@, channel, i as int, k);
            }
            return q;
        }
        i = i + 1;
    }
    None
}

/// `rgb`.
pub open spec fn rgb_prefix() -> Seq<u8> {
    seq![114u8, 103, 98]
}

/// `xyz`.
pub open spec fn xyz_prefix() -> Seq<u8> {
    seq![120u8, 121, 122]
}

/// `lab`.
pub open spec fn lab_prefix() -> Seq<u8> {
    seq![108u8, 97, 98]
}

/// `lch`.
pub open spec fn lch_prefix() -> Seq<u8> {
    seq![108u8, 99, 104]
}

/// The channels of an `rgb(..)` color string, and the byte span of its
/// alpha value, if present.
#[derive(Debug, Clone, Copy, PartialEq, Eq)]
pub struct RgbQuery {
    pub r: u8,
    pub g: u8,
    pub b: u8,
    pub alpha: Option<(usize, usize)>,
}

/// The byte spans of the three channels of a color string of numbers, and
/// the byte span of its alpha value, if present.
#[derive(Debug, Clone, Copy, PartialEq, Eq)]
pub struct NumbersQuery {
    pub channels: [(usize, usize); 3],
    pub alpha: Option<(usize, usize)>,
}

/// The value of the channel of `s` at `span`.
pub open spec fn channel_at(s: Seq<u8>, span: (int, int)) -> u8 {
    decimal_value(s.subrange(span.0, span.1)) as u8
}

/// The alpha span of a match, if it has one.
pub open spec fn alpha_of(spans: Seq<(int, int)>) -> Option<(usize, usize)> {
    if spans.len() == 4 {
        Some((spans[3].0 as usize, spans[3].1 as usize))
    } else {
        None
    }
}

/// The `rgb(..)` query that the spans of a match in `s` describe.
pub open spec fn rgb_query_of(s: Seq<u8>, spans: Seq<(int, int)>) -> RgbQuery {
    RgbQuery {
        r: channel_at(s, spans[0]),
        g: channel_at(s, spans[1]),
        b: channel_at(s, spans[2]),
        alpha: alpha_of(spans),
    }
}

/// The query of numbers that the spans of a match describe.
pub open spec fn numbers_query_of(spans: Seq<(int, int)>) -> NumbersQuery {
    NumbersQuery {
        channels: [
            (spans[0].0 as usize, spans[0].1 as usize),
            (spans[1].0 as usize, spans[1].1 as usize),
            (spans[2].0 as usize, spans[2].1 as usize),
        ],
        alpha: alpha_of(spans),
    }
}

/// The first `rgb(..)` color string in `s`, if any.
pub open spec fn first_rgb(s: Seq<u8>) -> Option<RgbQuery> {
    match first_query(s, rgb_prefix(), true) {
        Some(spans) => Some(rgb_query_of(s, spans)),
        None => None,
    }
}

/// The first color string of numbers with the given prefix in `s`, if any.
pub open spec fn first_numbers(s: Seq<u8>, prefix: Seq<u8>) -> Option<NumbersQuery> {
    match first_query(s, prefix, false) {
        Some(spans) => Some(numbers_query_of(spans)),
        None => None,
    }
}

/// Reads the channel of `s` at `a..e`.
fn channel_at_exec(s: &[u8], a: usize, e: usize) -> (r: u8)
    requires
        a <= e <= s@.len(),
        e == token_end(s@, a as int, true),
        is_channel_text(s@.subrange(a as int, e as int)),
    ensures
        r == channel_at(s@, (a as int, e as int)),
{
    let ghost sub = s@.subrange(a as int, e as int);
    assert forall|k: int| a <= k < e implies is_digit(#[trigger] s@[k]) by {
        assert(sub[k - a] == s@[k]);
    }
    match channel_value(s, a, e) {
        Some(v) => v,
        None => 0,
    }
}

/// Finds the first `rgb(r g b)` or `rgb(r g b a)` color string in `css`.
pub fn parse_rgb(css: &str) -> (r: Option<RgbQuery>)
    ensures
        r == first_rgb(css.spec_bytes()),
{
    let s = css.as_bytes();
    let prefix = [114u8, 103, 98];
    assert(prefix@ =~= rgb_prefix());
    match find_query(s, &prefix, true) {
        Some((channels, alpha)) => {
            let ghost i = choose|i: int| first_query_at(s@, i, prefix@, true);
            proof {
                reveal(query_at);
                lemma_token_end_bounds(s@, i + 4, true);
                lemma_token_end_bounds(s@, channels[0].1 + 1, true);
                lemma_token_end_bounds(s@, channels[1].1 + 1, true);
            }
            let r = channel_at_exec(s, channels[0].0, channels[0].1);
            let g = channel_at_exec(s, channels[1].0, channels[1].1);
            let b = channel_at_exec(s, channels[2].0, channels[2].1);
            let q = RgbQuery { r, g, b, alpha };
            assert(q == rgb_query_of(s@, spans_of(channels, alpha)));
            Some(q)
        },
        None => None,
    }
}

/// Finds the first color string of numbers with the given prefix in `css`.
fn parse_numbers(css: &str, prefix: &[u8]) -> (r: Option<NumbersQuery>)
    requires
        prefix@.len() == 3,
    ensures
        r == first_numbers(css.spec_bytes(), prefix@),
{
    match find_query(css.as_bytes(), prefix, false) {
        Some((channels, alpha)) => {
            let q = NumbersQuery { channels, alpha };
            assert(q.channels =~= numbers_query_of(spans_of(channels, alpha)).channels);
            assert(q == numbers_query_of(spans_of(channels, alpha)));
            Some(q)
        },
        None => None,
    }
}

/// Finds the first `xyz(x y z)` or `xyz(x y z a)` color string in `css`.
pub fn parse_xyz(css: &str) -> (r: Option<NumbersQuery>)
    ensures
        r == first_numbers(css.spec_bytes(), xyz_prefix()),
{
    let prefix = [120u8, 121, 122];
    assert(prefix@ =~= xyz_prefix());
    parse_numbers(css, &prefix)
}

/// Finds the first `lab(l a b)` or `lab(l a b alpha)` color string in `css`.
pub fn parse_lab(css: &str) -> (r: Option<NumbersQuery>)
    ensures
        r == first_numbers(css.spec_bytes(), lab_prefix()),
{
    let prefix = [108u8, 97, 98];
    assert(prefix@ =~= lab_prefix());
    parse_numbers(css, &prefix)
}

/// Finds the first `lch(l c h)` or `lch(l c h alpha)` color string in `css`.
pub fn parse_lch(css: &str) -> (r: Option<NumbersQuery>)
    ensures
        r == first_numbers(css.spec_bytes(), lch_prefix()),
{
    let prefix = [108u8, 99, 104];
    assert(prefix@ =~= lch_prefix());
    parse_numbers(css, &prefix)
}

/// What a CSS-like color string resolves to.
#[derive(Debug, Clone, Copy, PartialEq, Eq)]
pub enum CssColor {
    /// A named color.
    Named(SRgb),
    /// An `rgb(..)` color string.
    Rgb(RgbQuery),
    /// An `xyz(..)` color string.
    Xyz(NumbersQuery),
    /// A `lab(..)` color string.
    Lab(NumbersQuery),
}

/// `s` begins with `prefix`.
pub open spec fn starts_with(s: Seq<u8>, prefix: Seq<u8>) -> bool {
    prefix.len() <= s.len() && s.take(prefix.len() as int) == prefix
}

/// What the color string `s` resolves to: a named color first; otherwise
/// the first color string of the kind that `s` starts with. Strings that
/// start with `lch`, or with none of the known prefixes, resolve to nothing.
pub open spec fn css_color(s: Seq<u8>) -> Option<CssColor> {
    match lookup_named(named_colors(), s) {
        Some(c) => Some(CssColor::Named(c)),
        None => if starts_with(s, rgb_prefix()) {
            match first_rgb(s) {
                Some(q) => Some(CssColor::Rgb(q)),
                None => None,
            }
        } else if starts_with(s, xyz_prefix()) {
            match first_numbers(s, xyz_prefix()) {
                Some(q) => Some(CssColor::Xyz(q)),
                None => None,
            }
        } else if starts_with(s, lab_prefix()) {
            match first_numbers(s, lab_prefix()) {
                Some(q) => Some(CssColor::Lab(q)),
                None => None,
            }
        } else {
            None
        },
    }
}

/// Checks whether `s` starts with the three bytes of `prefix`.
fn starts_with_prefix(s: &[u8], prefix: &[u8; 3]) -> (r: bool)
    ensures
        r == starts_with(s@, prefix@),
{
    if s.len() < 3 {
        return false;
    }
    let r = s[0] == prefix[0] && s[1] == prefix[1] && s[2] == prefix[2];
    if r {
        assert(s@.take(3) =~= prefix@);
    } else {
        assert(s@.take(3)[0] == s@[0] && s@.take(3)[1] == s@[1] && s@.take(3)[2] == s@[2]);
    }
    r
}

/// Resolves a CSS-like color string: a named color, or an `rgb(..)`,
/// `xyz(..)` or `lab(..)` color string.
pub fn resolve_css(css: &str) -> (r: Option<CssColor>)
    ensures
        r == css_color(css.spec_bytes()),
{
    if let Some(color) = resolve_named(css) {
        return Some(CssColor::Named(color));
    }
    let s = css.as_bytes();
    let rgb = [114u8, 103, 98];
    let xyz = [120u8, 121, 122];
    let lab = [108u8, 97, 98];
    assert(rgb@ =~= rgb_prefix() && xyz@ =~= xyz_prefix() && lab@ =~= lab_prefix());
    if starts_with_prefix(s, &rgb) {
        match parse_rgb(css) {
            Some(q) => Some(CssColor::Rgb(q)),
            None => None,
        }
    } else if starts_with_prefix(s, &xyz) {
        match parse_xyz(css) {
            Some(q) => Some(CssColor::Xyz(q)),
            None => None,
        }
    } else if starts_with_prefix(s, &lab) {
        match parse_lab(css) {
            Some(q) => Some(CssColor::Lab(q)),
            None => None,
        }
    } else {
        None
    }
}

/// The color string `<prefix>(<t0> <t1> <t2>)`, or `<prefix>(<t0> <t1> <t2> <a>)`
/// when an alpha text `a` is given.
#[verifier::opaque]
pub open spec fn color_text(
    prefix: Seq<u8>,
    t0: Seq<u8>,
    t1: Seq<u8>,
    t2: Seq<u8>,
    alpha: Option<Seq<u8>>,
) -> Seq<u8> {
    let tail = match alpha {
        Some(a) => seq![32u8] + a + seq![41u8],
        None => seq![41u8],
    };
    prefix + seq![40u8] + t0 + seq![32u8] + t1 + seq![32u8] + t2 + tail
}

/// A token ends where its characters end.
pub proof fn lemma_token_end_exact(s: Seq<u8>, a: int, e: int, channel: bool)
    requires
        0 <= a <= e <= s.len(),
        forall|k: int| a <= k < e ==> in_token(#[trigger] s[k], channel),
        e == s.len() || !in_token(s[e], channel),
    ensures
        token_end(s, a, channel) == e,
    decreases e - a,
{
    if a < e {
        lemma_token_end_exact(s, a + 1, e, channel);
    }
}

/// Every character of a token may occur in a token.
pub proof fn lemma_token_chars(t: Seq<u8>, channel: bool)
    requires
        is_token_text(t, channel),
    ensures
        forall|k: int| 0 <= k < t.len() ==> in_token(#[trigger] t[k], channel),
{
    if !channel {
        let u = unsigned_part(t);
        let signed = t.len() > 0 && (t[0] == 43 || t[0] == 45);
        assert forall|k: int| 0 <= k < t.len() implies is_number_char(#[trigger] t[k]) by {
            if signed && k == 0 {
            } else {
                let j = if signed { k - 1 } else { k };
                assert(u[j] == t[k]);
                if !(u.len() > 0 && all_digits(u)) {
                    let d = choose|d: int|
                        0 <= d && d + 1 < u.len() && #[trigger] u[d] == 46 && all_digits(u.take(d))
                            && all_digits(u.skip(d + 1));
                    if j < d {
                        assert(u.take(d)[j] == u[j]);
                    } else if j > d {
                        assert(u.skip(d + 1)[j - d - 1] == u[j]);
                    }
                }
            }
        }
    }
}

/// Every well-formed color string is recognized where it starts, with the
/// spans of its channels and of its alpha value.
pub proof fn lemma_query_at_complete(
    s: Seq<u8>,
    i: int,
    prefix: Seq<u8>,
    channel: bool,
    t0: Seq<u8>,
    t1: Seq<u8>,
    t2: Seq<u8>,
    alpha: Option<Seq<u8>>,
)
    requires
        prefix.len() == 3,
        is_token_text(t0, channel),
        is_token_text(t1, channel),
        is_token_text(t2, channel),
        alpha matches Some(a) ==> is_number_text(a),
        0 <= i,
        i + color_text(prefix, t0, t1, t2, alpha).len() <= s.len(),
        s.subrange(i, i + color_text(prefix, t0, t1, t2, alpha).len()) == color_text(
            prefix,
            t0,
            t1,
            t2,
            alpha,
        ),
    ensures
        ({
            let p0 = i + 4;
            let e0 = p0 + t0.len();
            let e1 = e0 + 1 + t1.len();
            let e2 = e1 + 1 + t2.len();
            let spans = seq![(p0, e0), (e0 + 1, e1), (e1 + 1, e2)];
            query_at(s, i, prefix, channel) == Some(
                match alpha {
                    Some(a) => spans.push((e2 + 1, e2 + 1 + a.len())),
                    None => spans,
                },
            ) && s.subrange(p0, e0) == t0 && s.subrange(e0 + 1, e1) == t1 && s.subrange(
                e1 + 1,
                e2,
            ) == t2 && e2 < s.len()
        }),
{
    reveal(color_text);
    reveal(query_at);
    let c = color_text(prefix, t0, t1, t2, alpha);
    let p0 = i + 4;
    let e0 = p0 + t0.len();
    let p1 = e0 + 1;
    let e1 = p1 + t1.len();
    let p2 = e1 + 1;
    let e2 = p2 + t2.len();
    assert forall|k: int| 0 <= k < c.len() implies s[i + k] == #[trigger] c[k] by {
        assert(s.subrange(i, i + c.len())[k] == s[i + k]);
    }
    lemma_token_chars(t0, channel);
    lemma_token_chars(t1, channel);
    lemma_token_chars(t2, channel);
    // The characters of the three channels, and the characters after them.
    assert forall|k: int| p0 <= k < e0 implies in_token(#[trigger] s[k], channel) by {
        assert(c[k - i] == t0[k - p0]);
        assert(s[i + (k - i)] == c[k - i]);
    }
    assert(c[e0 - i] == 32u8);
    assert(s[i + (e0 - i)] == c[e0 - i]);
    lemma_token_end_exact(s, p0, e0, channel);
    assert forall|k: int| p1 <= k < e1 implies in_token(#[trigger] s[k], channel) by {
        assert(c[k - i] == t1[k - p1]);
        assert(s[i + (k - i)] == c[k - i]);
    }
    assert(c[e1 - i] == 32u8);
    assert(s[i + (e1 - i)] == c[e1 - i]);
    lemma_token_end_exact(s, p1, e1, channel);
    assert forall|k: int| p2 <= k < e2 implies in_token(#[trigger] s[k], channel) by {
        assert(c[k - i] == t2[k - p2]);
        assert(s[i + (k - i)] == c[k - i]);
    }
    assert(s[i + (e2 - i)] == c[e2 - i]);
    match alpha {
        Some(a) => {
            assert(c[e2 - i] == 32u8);
        },
        None => {
            assert(c[e2 - i] == 41u8);
        },
    }
    lemma_token_end_exact(s, p2, e2, channel);
    assert(s.subrange(p0, e0) =~= t0) by {
        assert forall|k: int| 0 <= k < t0.len() implies s.subrange(p0, e0)[k] == t0[k] by {
            assert(c[p0 - i + k] == t0[k]);
            assert(s[i + (p0 - i + k)] == c[p0 - i + k]);
        }
    }
    assert(s.subrange(p1, e1) =~= t1) by {
        assert forall|k: int| 0 <= k < t1.len() implies s.subrange(p1, e1)[k] == t1[k] by {
            assert(c[p1 - i + k] == t1[k]);
            assert(s[i + (p1 - i + k)] == c[p1 - i + k]);
        }
    }
    assert(s.subrange(p2, e2) =~= t2) by {
        assert forall|k: int| 0 <= k < t2.len() implies s.subrange(p2, e2)[k] == t2[k] by {
            assert(c[p2 - i + k] == t2[k]);
            assert(s[i + (p2 - i + k)] == c[p2 - i + k]);
        }
    }
    assert(s.subrange(i, i + 3) =~= prefix) by {
        assert forall|k: int| 0 <= k < 3 implies s.subrange(i, i + 3)[k] == prefix[k] by {
            assert(c[k] == prefix[k]);
            assert(s[i + k] == c[k]);
        }
    }
    assert(c[3] == 40u8);
    assert(s[i + 3] == c[3]);
    match alpha {
        Some(a) => {
            let p3 = e2 + 1;
            let e3 = p3 + a.len();
            lemma_token_chars(a, false);
            assert forall|k: int| p3 <= k < e3 implies in_token(#[trigger] s[k], false) by {
                assert(c[k - i] == a[k - p3]);
                assert(s[i + (k - i)] == c[k - i]);
            }
            assert(c[e3 - i] == 41u8);
            assert(s[i + (e3 - i)] == c[e3 - i]);
            lemma_token_end_exact(s, p3, e3, false);
            assert(s.subrange(p3, e3) =~= a) by {
                assert forall|k: int| 0 <= k < a.len() implies s.subrange(p3, e3)[k] == a[k] by {
                    assert(c[p3 - i + k] == a[k]);
                    assert(s[i + (p3 - i + k)] == c[p3 - i + k]);
                }
            }
        },
        None => {},
    }
}

/// A whole string `rgb(<r> <g> <b>)` or `rgb(<r> <g> <b> <a>)` is parsed to
/// the values of its channels and the span of its alpha text.
pub proof fn lemma_rgb_text_parses(t0: Seq<u8>, t1: Seq<u8>, t2: Seq<u8>, alpha: Option<Seq<u8>>)
    requires
        is_channel_text(t0),
        is_channel_text(t1),
        is_channel_text(t2),
        alpha matches Some(a) ==> is_number_text(a),
        color_text(rgb_prefix(), t0, t1, t2, alpha).len() <= usize::MAX,
    ensures
        ({
            let s = color_text(rgb_prefix(), t0, t1, t2, alpha);
            let e2 = 4 + t0.len() + 1 + t1.len() + 1 + t2.len();
            first_rgb(s) == Some(
                RgbQuery {
                    r: decimal_value(t0) as u8,
                    g: decimal_value(t1) as u8,
                    b: decimal_value(t2) as u8,
                    alpha: match alpha {
                        Some(a) => Some(((e2 + 1) as usize, (e2 + 1 + a.len()) as usize)),
                        None => None,
                    },
                },
            )
        }),
{
    let s = color_text(rgb_prefix(), t0, t1, t2, alpha);
    let p0 = 4int;
    let e0 = p0 + t0.len();
    let e1 = e0 + 1 + t1.len();
    let e2 = e1 + 1 + t2.len();
    assert(s.subrange(0, s.len() as int) =~= s);
    lemma_query_at_complete(s, 0, rgb_prefix(), true, t0, t1, t2, alpha);
    let spans = query_at(s, 0, rgb_prefix(), true).unwrap();
    assert(spans[0] == (p0, e0) && spans[1] == (e0 + 1, e1) && spans[2] == (e1 + 1, e2));
    lemma_first_query_at_start(s, rgb_prefix(), true);
    assert(s.subrange(spans[0].0, spans[0].1) == t0);
    assert(s.subrange(spans[1].0, spans[1].1) == t1);
    assert(s.subrange(spans[2].0, spans[2].1) == t2);
    assert(channel_at(s, spans[0]) == decimal_value(t0) as u8);
    assert(channel_at(s, spans[1]) == decimal_value(t1) as u8);
    assert(channel_at(s, spans[2]) == decimal_value(t2) as u8);
}

/// A whole string `<prefix>(<x> <y> <z>)` or `<prefix>(<x> <y> <z> <a>)` of
/// decimal numbers is parsed to the spans of its numbers.
pub proof fn lemma_numbers_text_parses(
    prefix: Seq<u8>,
    t0: Seq<u8>,
    t1: Seq<u8>,
    t2: Seq<u8>,
    alpha: Option<Seq<u8>>,
)
    requires
        prefix.len() == 3,
        is_number_text(t0),
        is_number_text(t1),
        is_number_text(t2),
        alpha matches Some(a) ==> is_number_text(a),
        color_text(prefix, t0, t1, t2, alpha).len() <= usize::MAX,
    ensures
        ({
            let s = color_text(prefix, t0, t1, t2, alpha);
            let e0 = 4 + t0.len();
            let e1 = e0 + 1 + t1.len();
            let e2 = e1 + 1 + t2.len();
            first_numbers(s, prefix) == Some(
                NumbersQuery {
                    channels: [
                        (4usize, e0 as usize),
                        ((e0 + 1) as usize, e1 as usize),
                        ((e1 + 1) as usize, e2 as usize),
                    ],
                    alpha: match alpha {
                        Some(a) => Some(((e2 + 1) as usize, (e2 + 1 + a.len()) as usize)),
                        None => None,
                    },
                },
            )
        }),
{
    let s = color_text(prefix, t0, t1, t2, alpha);
    assert(s.subrange(0, s.len() as int) =~= s);
    lemma_query_at_complete(s, 0, prefix, false, t0, t1, t2, alpha);
    lemma_first_query_at_start(s, prefix, false);
    let e0 = 4 + t0.len();
    let e1 = e0 + 1 + t1.len();
    let e2 = e1 + 1 + t2.len();
    let expected = NumbersQuery {
        channels: [
            (4usize, e0 as usize),
            ((e0 + 1) as usize, e1 as usize),
            ((e1 + 1) as usize, e2 as usize),
        ],
        alpha: match alpha {
            Some(a) => Some(((e2 + 1) as usize, (e2 + 1 + a.len()) as usize)),
            None => None,
        },
    };
    let q = numbers_query_of(query_at(s, 0, prefix, false).unwrap());
    assert(q.channels =~= expected.channels);
}

} // verus!
