//! The table of linear channel values, and the proof that it is the sRGB one.

use vstd::prelude::*;

verus! {

/// One, in units of a linear channel.
pub const LINEAR_ONE: u64 = 1_000_000_000_000_000;

/// Linear value of each channel value.
pub const LINEAR: [u64; 256] = [
    0, 303526983549, 607053967098, 910580950647,
    1214107934195, 1517634917744, 1821161901293, 2124688884842,
    2428215868391, 2731742851940, 3035269835488, 3346535763899,
    3676507324047, 4024717018496, 4391442037410, 4776953480694,
    5181516702338, 5605391624203, 6048833022857, 6512090792594,
    6995410187265, 7499032043226, 8023192985385, 8568125618069,
    9134058702221, 9721217320238, 10329823029627, 10960094006488,
    11612245179744, 12286488356916, 12983032342173, 13702083047290,
    14443843596093, 15208514422913, 15996293365510, 16807375752887,
    17641954488384, 18500220128380, 19382360956936, 20288563056652,
    21219010376004, 22173884793387, 23153366178110, 24157632448505,
    25186859627362, 26241221894850, 27320891639075, 28426039504421,
    29556834437809, 30713443732994, 31896033073012, 33104766570885,
    34339806808682, 35601314875020, 36889450401100, 38204371595346,
    39546235276733, 40915196906853, 42311410620810, 43735029256973,
    45186204385676, 46665086336880, 48171824226889, 49706565984127,
    51269458374043, 52860647023180, 54480276442442, 56128490049600,
    57805430191067, 59511238162981, 61246054231618, 63010017653168,
    64803266692906, 66625938643773, 68478169844400, 70360095696596,
    72271850682317, 74213568380150, 76185381481308, 78187421805186,
    80219820314468, 82282707129815, 84376211544149, 86500462036550,
    88655586285773, 90841711183408, 93058962846687, 95307466630965,
    97587347141862, 99898728247114, 102241733088101, 104616484091104,
    107023102978268, 109461710778299, 111932427836906, 114435373826974,
    116970667758511, 119538427988346, 122138772229602, 124771817560950,
    127437680435647, 130136476690364, 132868321553818, 135633329655206,
    138431615032452, 141263291140272, 144128470858058, 147027266497595,
    149959789810609, 152926151996150, 155926463707827, 158960835060880,
    162029375639111, 165132194501668, 168269400189691, 171441100732823,
    174647403655585, 177888415983629, 181164244249860, 184474994500441,
    187820772300678, 191201682740791, 194617830441576, 198069319559949,
    201556253794397, 205078736390317, 208636870145256, 212230757414055,
    215860500113899, 219526199729269, 223227957316808, 226965873510098,
    230740048524349, 234550582161005, 238397573812271, 242281122465555,
    246201326707835, 250158284729953, 254152094330827, 258182852921596,
    262250657529696, 266355604802862, 270497791013066, 274677312060385,
    278894263476810, 283148740429992, 287440837726917, 291770649817536,
    296138270798321, 300543794415776, 304987314069886, 309468922817508,
    313988713375718, 318546778125092, 323143209112951, 327778098056542,
    332451536346179, 337163615048330, 341914424908661, 346704056355029,
    351532599500439, 356400144145943, 361306779783509, 366252595598839,
    371237680474149, 376262122990906, 381326011432530, 386429433787049,
    391572477749723, 396755230725627, 401977779832196, 407240211901737,
    412542613483904, 417885070848137, 423267669986072, 428690496613907,
    434153636174749, 439657173840919, 445201194516228, 450785782838223,
    456411023180405, 462076999654407, 467783796112159, 473531496148009,
    479320183100827, 485149940056070, 491020849847835, 496932995060870,
    502886458032568, 508881320854934, 514917665376521, 520995573204354,
    527115125705813, 533276404010505, 539479489012107, 545724461370187,
    552011401512000, 558340389634268, 564711505704929, 571124829464873,
    577580440429650, 584078417891164, 590618840919337, 597201788363763,
    603827338855337, 610495570807865, 617206562419651, 623960391675076,
    630757136346147, 637596873994032, 644479681970582, 651405637419824,
    658374817279448, 665387298282272, 672443156957687, 679542469633094,
    686685312435313, 693871761291990, 701101891932973, 708375779891687,
    715693500506481, 723055128921969, 730460740090353, 737910408772731,
    745404209540387, 752942216776078, 760524504675292, 768151147247507,
    775822218317423, 783537791526193, 791297940332630, 799102738014409,
    806952257669251, 814846572216101, 822785754396283, 830769876774655,
    838799011740740, 846873231509858, 854992608124234, 863157213454102,
    871367119198797, 879622396887832, 887923117881966, 896269353374267,
    904661174391149, 913098651793419, 921581856277294, 930110858375423,
    938685728457888, 947306536733200, 955973353249286, 964686247894465,
    973445290398412, 982250550333117, 991102097113830, 1000000000000000,
];

pub open spec fn power5(x: int) -> int {
    x * x * x * x * x
}

pub open spec fn power12(x: int) -> int {
    power5(x) * power5(x) * x * x
}

/// `t` is the sRGB linear value of the channel value `c`, rounded to the
/// nearest unit. With s = c / 255 it is s / 12.92 up to s = 0.04045, and above
/// that ((s + 0.055) / 1.055) to the power of 12/5.
///
/// s / 12.92 is 5c / 16473. (s + 0.055) / 1.055 is (40c + 561) / 10761, and t
/// lies within half a unit of x^(12/5) when its fifth powers enclose x^12.
#[verifier::opaque]
pub open spec fn is_linear(c: int, t: int) -> bool {
    if c <= 10 {
        &&& (2 * t - 1) * 16473 <= 10 * c * LINEAR_ONE
        &&& 10 * c * LINEAR_ONE < (2 * t + 1) * 16473
    } else {
        let x = power12(40 * c + 561) * power5(2 * LINEAR_ONE as int);
        &&& power5(2 * t - 1) * power12(10761) <= x
        &&& x < power5(2 * t + 1) * power12(10761)
    }
}

proof fn lemma_linear_0(c: int)
    requires
        0 <= c < 32,
    ensures
        is_linear(c, LINEAR@[c] as int),
{
    assert(is_linear(0, 0)) by (nonlinear_arith) {
        reveal(is_linear);
    }
    assert(is_linear(1, 303526983549)) by (nonlinear_arith) {
        reveal(is_linear);
    }
    assert(is_linear(2, 607053967098)) by (nonlinear_arith) {
        reveal(is_linear);
    }
    assert(is_linear(3, 910580950647)) by (nonlinear_arith) {
        reveal(is_linear);
    }
    assert(is_linear(4, 1214107934195)) by (nonlinear_arith) {
        reveal(is_linear);
    }
    assert(is_linear(5, 1517634917744)) by (nonlinear_arith) {
        reveal(is_linear);
    }
    assert(is_linear(6, 1821161901293)) by (nonlinear_arith) {
        reveal(is_linear);
    }
    assert(is_linear(7, 2124688884842)) by (nonlinear_arith) {
        reveal(is_linear);
    }
    assert(is_linear(8, 2428215868391)) by (nonlinear_arith) {
        reveal(is_linear);
    }
    assert(is_linear(9, 2731742851940)) by (nonlinear_arith) {
        reveal(is_linear);
    }
    assert(is_linear(10, 3035269835488)) by (nonlinear_arith) {
        reveal(is_linear);
    }
    assert(is_linear(11, 3346535763899)) by (nonlinear_arith) {
        reveal(is_linear);
    }
    assert(is_linear(12, 3676507324047)) by (nonlinear_arith) {
        reveal(is_linear);
    }
    assert(is_linear(13, 4024717018496)) by (nonlinear_arith) {
        reveal(is_linear);
    }
    assert(is_linear(14, 4391442037410)) by (nonlinear_arith) {
        reveal(is_linear);
    }
    assert(is_linear(15, 4776953480694)) by (nonlinear_arith) {
        reveal(is_linear);
    }
    assert(is_linear(16, 5181516702338)) by (nonlinear_arith) {
        reveal(is_linear);
    }
    assert(is_linear(17, 5605391624203)) by (nonlinear_arith) {
        reveal(is_linear);
    }
    assert(is_linear(18, 6048833022857)) by (nonlinear_arith) {
        reveal(is_linear);
    }
    assert(is_linear(19, 6512090792594)) by (nonlinear_arith) {
        reveal(is_linear);
    }
    assert(is_linear(20, 6995410187265)) by (nonlinear_arith) {
        reveal(is_linear);
    }
    assert(is_linear(21, 7499032043226)) by (nonlinear_arith) {
        reveal(is_linear);
    }
    assert(is_linear(22, 8023192985385)) by (nonlinear_arith) {
        reveal(is_linear);
    }
    assert(is_linear(23, 8568125618069)) by (nonlinear_arith) {
        reveal(is_linear);
    }
    assert(is_linear(24, 9134058702221)) by (nonlinear_arith) {
        reveal(is_linear);
    }
    assert(is_linear(25, 9721217320238)) by (nonlinear_arith) {
        reveal(is_linear);
    }
    assert(is_linear(26, 10329823029627)) by (nonlinear_arith) {
        reveal(is_linear);
    }
    assert(is_linear(27, 10960094006488)) by (nonlinear_arith) {
        reveal(is_linear);
    }
    assert(is_linear(28, 11612245179744)) by (nonlinear_arith) {
        reveal(is_linear);
    }
    assert(is_linear(29, 12286488356916)) by (nonlinear_arith) {
        reveal(is_linear);
    }
    assert(is_linear(30, 12983032342173)) by (nonlinear_arith) {
        reveal(is_linear);
    }
    assert(is_linear(31, 13702083047290)) by (nonlinear_arith) {
        reveal(is_linear);
    }
}

proof fn lemma_linear_1(c: int)
    requires
        32 <= c < 64,
    ensures
        is_linear(c, LINEAR@[c] as int),
{
    assert(is_linear(32, 14443843596093)) by (nonlinear_arith) {
        reveal(is_linear);
    }
    assert(is_linear(33, 15208514422913)) by (nonlinear_arith) {
        reveal(is_linear);
    }
    assert(is_linear(34, 15996293365510)) by (nonlinear_arith) {
        reveal(is_linear);
    }
    assert(is_linear(35, 16807375752887)) by (nonlinear_arith) {
        reveal(is_linear);
    }
    assert(is_linear(36, 17641954488384)) by (nonlinear_arith) {
        reveal(is_linear);
    }
    assert(is_linear(37, 18500220128380)) by (nonlinear_arith) {
        reveal(is_linear);
    }
    assert(is_linear(38, 19382360956936)) by (nonlinear_arith) {
        reveal(is_linear);
    }
    assert(is_linear(39, 20288563056652)) by (nonlinear_arith) {
        reveal(is_linear);
    }
    assert(is_linear(40, 21219010376004)) by (nonlinear_arith) {
        reveal(is_linear);
    }
    assert(is_linear(41, 22173884793387)) by (nonlinear_arith) {
        reveal(is_linear);
    }
    assert(is_linear(42, 23153366178110)) by (nonlinear_arith) {
        reveal(is_linear);
    }
    assert(is_linear(43, 24157632448505)) by (nonlinear_arith) {
        reveal(is_linear);
    }
    assert(is_linear(44, 25186859627362)) by (nonlinear_arith) {
        reveal(is_linear);
    }
    assert(is_linear(45, 26241221894850)) by (nonlinear_arith) {
        reveal(is_linear);
    }
    assert(is_linear(46, 27320891639075)) by (nonlinear_arith) {
        reveal(is_linear);
    }
    assert(is_linear(47, 28426039504421)) by (nonlinear_arith) {
        reveal(is_linear);
    }
    assert(is_linear(48, 29556834437809)) by (nonlinear_arith) {
        reveal(is_linear);
    }
    assert(is_linear(49, 30713443732994)) by (nonlinear_arith) {
        reveal(is_linear);
    }
    assert(is_linear(50, 31896033073012)) by (nonlinear_arith) {
        reveal(is_linear);
    }
    assert(is_linear(51, 33104766570885)) by (nonlinear_arith) {
        reveal(is_linear);
    }
    assert(is_linear(52, 34339806808682)) by (nonlinear_arith) {
        reveal(is_linear);
    }
    assert(is_linear(53, 35601314875020)) by (nonlinear_arith) {
        reveal(is_linear);
    }
    assert(is_linear(54, 36889450401100)) by (nonlinear_arith) {
        reveal(is_linear);
    }
    assert(is_linear(55, 38204371595346)) by (nonlinear_arith) {
        reveal(is_linear);
    }
    assert(is_linear(56, 39546235276733)) by (nonlinear_arith) {
        reveal(is_linear);
    }
    assert(is_linear(57, 40915196906853)) by (nonlinear_arith) {
        reveal(is_linear);
    }
    assert(is_linear(58, 42311410620810)) by (nonlinear_arith) {
        reveal(is_linear);
    }
    assert(is_linear(59, 43735029256973)) by (nonlinear_arith) {
        reveal(is_linear);
    }
    assert(is_linear(60, 45186204385676)) by (nonlinear_arith) {
        reveal(is_linear);
    }
    assert(is_linear(61, 46665086336880)) by (nonlinear_arith) {
        reveal(is_linear);
    }
    assert(is_linear(62, 48171824226889)) by (nonlinear_arith) {
        reveal(is_linear);
    }
    assert(is_linear(63, 49706565984127)) by (nonlinear_arith) {
        reveal(is_linear);
    }
}

proof fn lemma_linear_2(c: int)
    requires
        64 <= c < 96,
    ensures
        is_linear(c, LINEAR@[c] as int),
{
    assert(is_linear(64, 51269458374043)) by (nonlinear_arith) {
        reveal(is_linear);
    }
    assert(is_linear(65, 52860647023180)) by (nonlinear_arith) {
        reveal(is_linear);
    }
    assert(is_linear(66, 54480276442442)) by (nonlinear_arith) {
        reveal(is_linear);
    }
    assert(is_linear(67, 56128490049600)) by (nonlinear_arith) {
        reveal(is_linear);
    }
    assert(is_linear(68, 57805430191067)) by (nonlinear_arith) {
        reveal(is_linear);
    }
    assert(is_linear(69, 59511238162981)) by (nonlinear_arith) {
        reveal(is_linear);
    }
    assert(is_linear(70, 61246054231618)) by (nonlinear_arith) {
        reveal(is_linear);
    }
    assert(is_linear(71, 63010017653168)) by (nonlinear_arith) {
        reveal(is_linear);
    }
    assert(is_linear(72, 64803266692906)) by (nonlinear_arith) {
        reveal(is_linear);
    }
    assert(is_linear(73, 66625938643773)) by (nonlinear_arith) {
        reveal(is_linear);
    }
    assert(is_linear(74, 68478169844400)) by (nonlinear_arith) {
        reveal(is_linear);
    }
    assert(is_linear(75, 70360095696596)) by (nonlinear_arith) {
        reveal(is_linear);
    }
    assert(is_linear(76, 72271850682317)) by (nonlinear_arith) {
        reveal(is_linear);
    }
    assert(is_linear(77, 74213568380150)) by (nonlinear_arith) {
        reveal(is_linear);
    }
    assert(is_linear(78, 76185381481308)) by (nonlinear_arith) {
        reveal(is_linear);
    }
    assert(is_linear(79, 78187421805186)) by (nonlinear_arith) {
        reveal(is_linear);
    }
    assert(is_linear(80, 80219820314468)) by (nonlinear_arith) {
        reveal(is_linear);
    }
    assert(is_linear(81, 82282707129815)) by (nonlinear_arith) {
        reveal(is_linear);
    }
    assert(is_linear(82, 84376211544149)) by (nonlinear_arith) {
        reveal(is_linear);
    }
    assert(is_linear(83, 86500462036550)) by (nonlinear_arith) {
        reveal(is_linear);
    }
    assert(is_linear(84, 88655586285773)) by (nonlinear_arith) {
        reveal(is_linear);
    }
    assert(is_linear(85, 90841711183408)) by (nonlinear_arith) {
        reveal(is_linear);
    }
    assert(is_linear(86, 93058962846687)) by (nonlinear_arith) {
        reveal(is_linear);
    }
    assert(is_linear(87, 95307466630965)) by (nonlinear_arith) {
        reveal(is_linear);
    }
    assert(is_linear(88, 97587347141862)) by (nonlinear_arith) {
        reveal(is_linear);
    }
    assert(is_linear(89, 99898728247114)) by (nonlinear_arith) {
        reveal(is_linear);
    }
    assert(is_linear(90, 102241733088101)) by (nonlinear_arith) {
        reveal(is_linear);
    }
    assert(is_linear(91, 104616484091104)) by (nonlinear_arith) {
        reveal(is_linear);
    }
    assert(is_linear(92, 107023102978268)) by (nonlinear_arith) {
        reveal(is_linear);
    }
    assert(is_linear(93, 109461710778299)) by (nonlinear_arith) {
        reveal(is_linear);
    }
    assert(is_linear(94, 111932427836906)) by (nonlinear_arith) {
        reveal(is_linear);
    }
    assert(is_linear(95, 114435373826974)) by (nonlinear_arith) {
        reveal(is_linear);
    }
}

proof fn lemma_linear_3(c: int)
    requires
        96 <= c < 128,
    ensures
        is_linear(c, LINEAR@[c] as int),
{
    assert(is_linear(96, 116970667758511)) by (nonlinear_arith) {
        reveal(is_linear);
    }
    assert(is_linear(97, 119538427988346)) by (nonlinear_arith) {
        reveal(is_linear);
    }
    assert(is_linear(98, 122138772229602)) by (nonlinear_arith) {
        reveal(is_linear);
    }
    assert(is_linear(99, 124771817560950)) by (nonlinear_arith) {
        reveal(is_linear);
    }
    assert(is_linear(100, 127437680435647)) by (nonlinear_arith) {
        reveal(is_linear);
    }
    assert(is_linear(101, 130136476690364)) by (nonlinear_arith) {
        reveal(is_linear);
    }
    assert(is_linear(102, 132868321553818)) by (nonlinear_arith) {
        reveal(is_linear);
    }
    assert(is_linear(103, 135633329655206)) by (nonlinear_arith) {
        reveal(is_linear);
    }
    assert(is_linear(104, 138431615032452)) by (nonlinear_arith) {
        reveal(is_linear);
    }
    assert(is_linear(105, 141263291140272)) by (nonlinear_arith) {
        reveal(is_linear);
    }
    assert(is_linear(106, 144128470858058)) by (nonlinear_arith) {
        reveal(is_linear);
    }
    assert(is_linear(107, 147027266497595)) by (nonlinear_arith) {
        reveal(is_linear);
    }
    assert(is_linear(108, 149959789810609)) by (nonlinear_arith) {
        reveal(is_linear);
    }
    assert(is_linear(109, 152926151996150)) by (nonlinear_arith) {
        reveal(is_linear);
    }
    assert(is_linear(110, 155926463707827)) by (nonlinear_arith) {
        reveal(is_linear);
    }
    assert(is_linear(111, 158960835060880)) by (nonlinear_arith) {
        reveal(is_linear);
    }
    assert(is_linear(112, 162029375639111)) by (nonlinear_arith) {
        reveal(is_linear);
    }
    assert(is_linear(113, 165132194501668)) by (nonlinear_arith) {
        reveal(is_linear);
    }
    assert(is_linear(114, 168269400189691)) by (nonlinear_arith) {
        reveal(is_linear);
    }
    assert(is_linear(115, 171441100732823)) by (nonlinear_arith) {
        reveal(is_linear);
    }
    assert(is_linear(116, 174647403655585)) by (nonlinear_arith) {
        reveal(is_linear);
    }
    assert(is_linear(117, 177888415983629)) by (nonlinear_arith) {
        reveal(is_linear);
    }
    assert(is_linear(118, 181164244249860)) by (nonlinear_arith) {
        reveal(is_linear);
    }
    assert(is_linear(119, 184474994500441)) by (nonlinear_arith) {
        reveal(is_linear);
    }
    assert(is_linear(120, 187820772300678)) by (nonlinear_arith) {
        reveal(is_linear);
    }
    assert(is_linear(121, 191201682740791)) by (nonlinear_arith) {
        reveal(is_linear);
    }
    assert(is_linear(122, 194617830441576)) by (nonlinear_arith) {
        reveal(is_linear);
    }
    assert(is_linear(123, 198069319559949)) by (nonlinear_arith) {
        reveal(is_linear);
    }
    assert(is_linear(124, 201556253794397)) by (nonlinear_arith) {
        reveal(is_linear);
    }
    assert(is_linear(125, 205078736390317)) by (nonlinear_arith) {
        reveal(is_linear);
    }
    assert(is_linear(126, 208636870145256)) by (nonlinear_arith) {
        reveal(is_linear);
    }
    assert(is_linear(127, 212230757414055)) by (nonlinear_arith) {
        reveal(is_linear);
    }
}

proof fn lemma_linear_4(c: int)
    requires
        128 <= c < 160,
    ensures
        is_linear(c, LINEAR@[c] as int),
{
    assert(is_linear(128, 215860500113899)) by (nonlinear_arith) {
        reveal(is_linear);
    }
    assert(is_linear(129, 219526199729269)) by (nonlinear_arith) {
        reveal(is_linear);
    }
    assert(is_linear(130, 223227957316808)) by (nonlinear_arith) {
        reveal(is_linear);
    }
    assert(is_linear(131, 226965873510098)) by (nonlinear_arith) {
        reveal(is_linear);
    }
    assert(is_linear(132, 230740048524349)) by (nonlinear_arith) {
        reveal(is_linear);
    }
    assert(is_linear(133, 234550582161005)) by (nonlinear_arith) {
        reveal(is_linear);
    }
    assert(is_linear(134, 238397573812271)) by (nonlinear_arith) {
        reveal(is_linear);
    }
    assert(is_linear(135, 242281122465555)) by (nonlinear_arith) {
        reveal(is_linear);
    }
    assert(is_linear(136, 246201326707835)) by (nonlinear_arith) {
        reveal(is_linear);
    }
    assert(is_linear(137, 250158284729953)) by (nonlinear_arith) {
        reveal(is_linear);
    }
    assert(is_linear(138, 254152094330827)) by (nonlinear_arith) {
        reveal(is_linear);
    }
    assert(is_linear(139, 258182852921596)) by (nonlinear_arith) {
        reveal(is_linear);
    }
    assert(is_linear(140, 262250657529696)) by (nonlinear_arith) {
        reveal(is_linear);
    }
    assert(is_linear(141, 266355604802862)) by (nonlinear_arith) {
        reveal(is_linear);
    }
    assert(is_linear(142, 270497791013066)) by (nonlinear_arith) {
        reveal(is_linear);
    }
    assert(is_linear(143, 274677312060385)) by (nonlinear_arith) {
        reveal(is_linear);
    }
    assert(is_linear(144, 278894263476810)) by (nonlinear_arith) {
        reveal(is_linear);
    }
    assert(is_linear(145, 283148740429992)) by (nonlinear_arith) {
        reveal(is_linear);
    }
    assert(is_linear(146, 287440837726917)) by (nonlinear_arith) {
        reveal(is_linear);
    }
    assert(is_linear(147, 291770649817536)) by (nonlinear_arith) {
        reveal(is_linear);
    }
    assert(is_linear(148, 296138270798321)) by (nonlinear_arith) {
        reveal(is_linear);
    }
    assert(is_linear(149, 300543794415776)) by (nonlinear_arith) {
        reveal(is_linear);
    }
    assert(is_linear(150, 304987314069886)) by (nonlinear_arith) {
        reveal(is_linear);
    }
    assert(is_linear(151, 309468922817508)) by (nonlinear_arith) {
        reveal(is_linear);
    }
    assert(is_linear(152, 313988713375718)) by (nonlinear_arith) {
        reveal(is_linear);
    }
    assert(is_linear(153, 318546778125092)) by (nonlinear_arith) {
        reveal(is_linear);
    }
    assert(is_linear(154, 323143209112951)) by (nonlinear_arith) {
        reveal(is_linear);
    }
    assert(is_linear(155, 327778098056542)) by (nonlinear_arith) {
        reveal(is_linear);
    }
    assert(is_linear(156, 332451536346179)) by (nonlinear_arith) {
        reveal(is_linear);
    }
    assert(is_linear(157, 337163615048330)) by (nonlinear_arith) {
        reveal(is_linear);
    }
    assert(is_linear(158, 341914424908661)) by (nonlinear_arith) {
        reveal(is_linear);
    }
    assert(is_linear(159, 346704056355029)) by (nonlinear_arith) {
        reveal(is_linear);
    }
}

proof fn lemma_linear_5(c: int)
    requires
        160 <= c < 192,
    ensures
        is_linear(c, LINEAR@[c] as int),
{
    assert(is_linear(160, 351532599500439)) by (nonlinear_arith) {
        reveal(is_linear);
    }
    assert(is_linear(161, 356400144145943)) by (nonlinear_arith) {
        reveal(is_linear);
    }
    assert(is_linear(162, 361306779783509)) by (nonlinear_arith) {
        reveal(is_linear);
    }
    assert(is_linear(163, 366252595598839)) by (nonlinear_arith) {
        reveal(is_linear);
    }
    assert(is_linear(164, 371237680474149)) by (nonlinear_arith) {
        reveal(is_linear);
    }
    assert(is_linear(165, 376262122990906)) by (nonlinear_arith) {
        reveal(is_linear);
    }
    assert(is_linear(166, 381326011432530)) by (nonlinear_arith) {
        reveal(is_linear);
    }
    assert(is_linear(167, 386429433787049)) by (nonlinear_arith) {
        reveal(is_linear);
    }
    assert(is_linear(168, 391572477749723)) by (nonlinear_arith) {
        reveal(is_linear);
    }
    assert(is_linear(169, 396755230725627)) by (nonlinear_arith) {
        reveal(is_linear);
    }
    assert(is_linear(170, 401977779832196)) by (nonlinear_arith) {
        reveal(is_linear);
    }
    assert(is_linear(171, 407240211901737)) by (nonlinear_arith) {
        reveal(is_linear);
    }
    assert(is_linear(172, 412542613483904)) by (nonlinear_arith) {
        reveal(is_linear);
    }
    assert(is_linear(173, 417885070848137)) by (nonlinear_arith) {
        reveal(is_linear);
    }
    assert(is_linear(174, 423267669986072)) by (nonlinear_arith) {
        reveal(is_linear);
    }
    assert(is_linear(175, 428690496613907)) by (nonlinear_arith) {
        reveal(is_linear);
    }
    assert(is_linear(176, 434153636174749)) by (nonlinear_arith) {
        reveal(is_linear);
    }
    assert(is_linear(177, 439657173840919)) by (nonlinear_arith) {
        reveal(is_linear);
    }
    assert(is_linear(178, 445201194516228)) by (nonlinear_arith) {
        reveal(is_linear);
    }
    assert(is_linear(179, 450785782838223)) by (nonlinear_arith) {
        reveal(is_linear);
    }
    assert(is_linear(180, 456411023180405)) by (nonlinear_arith) {
        reveal(is_linear);
    }
    assert(is_linear(181, 462076999654407)) by (nonlinear_arith) {
        reveal(is_linear);
    }
    assert(is_linear(182, 467783796112159)) by (nonlinear_arith) {
        reveal(is_linear);
    }
    assert(is_linear(183, 473531496148009)) by (nonlinear_arith) {
        reveal(is_linear);
    }
    assert(is_linear(184, 479320183100827)) by (nonlinear_arith) {
        reveal(is_linear);
    }
    assert(is_linear(185, 485149940056070)) by (nonlinear_arith) {
        reveal(is_linear);
    }
    assert(is_linear(186, 491020849847835)) by (nonlinear_arith) {
        reveal(is_linear);
    }
    assert(is_linear(187, 496932995060870)) by (nonlinear_arith) {
        reveal(is_linear);
    }
    assert(is_linear(188, 502886458032568)) by (nonlinear_arith) {
        reveal(is_linear);
    }
    assert(is_linear(189, 508881320854934)) by (nonlinear_arith) {
        reveal(is_linear);
    }
    assert(is_linear(190, 514917665376521)) by (nonlinear_arith) {
        reveal(is_linear);
    }
    assert(is_linear(191, 520995573204354)) by (nonlinear_arith) {
        reveal(is_linear);
    }
}

proof fn lemma_linear_6(c: int)
    requires
        192 <= c < 224,
    ensures
        is_linear(c, LINEAR@[c] as int),
{
    assert(is_linear(192, 527115125705813)) by (nonlinear_arith) {
        reveal(is_linear);
    }
    assert(is_linear(193, 533276404010505)) by (nonlinear_arith) {
        reveal(is_linear);
    }
    assert(is_linear(194, 539479489012107)) by (nonlinear_arith) {
        reveal(is_linear);
    }
    assert(is_linear(195, 545724461370187)) by (nonlinear_arith) {
        reveal(is_linear);
    }
    assert(is_linear(196, 552011401512000)) by (nonlinear_arith) {
        reveal(is_linear);
    }
    assert(is_linear(197, 558340389634268)) by (nonlinear_arith) {
        reveal(is_linear);
    }
    assert(is_linear(198, 564711505704929)) by (nonlinear_arith) {
        reveal(is_linear);
    }
    assert(is_linear(199, 571124829464873)) by (nonlinear_arith) {
        reveal(is_linear);
    }
    assert(is_linear(200, 577580440429650)) by (nonlinear_arith) {
        reveal(is_linear);
    }
    assert(is_linear(201, 584078417891164)) by (nonlinear_arith) {
        reveal(is_linear);
    }
    assert(is_linear(202, 590618840919337)) by (nonlinear_arith) {
        reveal(is_linear);
    }
    assert(is_linear(203, 597201788363763)) by (nonlinear_arith) {
        reveal(is_linear);
    }
    assert(is_linear(204, 603827338855337)) by (nonlinear_arith) {
        reveal(is_linear);
    }
    assert(is_linear(205, 610495570807865)) by (nonlinear_arith) {
        reveal(is_linear);
    }
    assert(is_linear(206, 617206562419651)) by (nonlinear_arith) {
        reveal(is_linear);
    }
    assert(is_linear(207, 623960391675076)) by (nonlinear_arith) {
        reveal(is_linear);
    }
    assert(is_linear(208, 630757136346147)) by (nonlinear_arith) {
        reveal(is_linear);
    }
    assert(is_linear(209, 637596873994032)) by (nonlinear_arith) {
        reveal(is_linear);
    }
    assert(is_linear(210, 644479681970582)) by (nonlinear_arith) {
        reveal(is_linear);
    }
    assert(is_linear(211, 651405637419824)) by (nonlinear_arith) {
        reveal(is_linear);
    }
    assert(is_linear(212, 658374817279448)) by (nonlinear_arith) {
        reveal(is_linear);
    }
    assert(is_linear(213, 665387298282272)) by (nonlinear_arith) {
        reveal(is_linear);
    }
    assert(is_linear(214, 672443156957687)) by (nonlinear_arith) {
        reveal(is_linear);
    }
    assert(is_linear(215, 679542469633094)) by (nonlinear_arith) {
        reveal(is_linear);
    }
    assert(is_linear(216, 686685312435313)) by (nonlinear_arith) {
        reveal(is_linear);
    }
    assert(is_linear(217, 693871761291990)) by (nonlinear_arith) {
        reveal(is_linear);
    }
    assert(is_linear(218, 701101891932973)) by (nonlinear_arith) {
        reveal(is_linear);
    }
    assert(is_linear(219, 708375779891687)) by (nonlinear_arith) {
        reveal(is_linear);
    }
    assert(is_linear(220, 715693500506481)) by (nonlinear_arith) {
        reveal(is_linear);
    }
    assert(is_linear(221, 723055128921969)) by (nonlinear_arith) {
        reveal(is_linear);
    }
    assert(is_linear(222, 730460740090353)) by (nonlinear_arith) {
        reveal(is_linear);
    }
    assert(is_linear(223, 737910408772731)) by (nonlinear_arith) {
        reveal(is_linear);
    }
}

proof fn lemma_linear_7(c: int)
    requires
        224 <= c < 256,
    ensures
        is_linear(c, LINEAR@[c] as int),
{
    assert(is_linear(224, 745404209540387)) by (nonlinear_arith) {
        reveal(is_linear);
    }
    assert(is_linear(225, 752942216776078)) by (nonlinear_arith) {
        reveal(is_linear);
    }
    assert(is_linear(226, 760524504675292)) by (nonlinear_arith) {
        reveal(is_linear);
    }
    assert(is_linear(227, 768151147247507)) by (nonlinear_arith) {
        reveal(is_linear);
    }
    assert(is_linear(228, 775822218317423)) by (nonlinear_arith) {
        reveal(is_linear);
    }
    assert(is_linear(229, 783537791526193)) by (nonlinear_arith) {
        reveal(is_linear);
    }
    assert(is_linear(230, 791297940332630)) by (nonlinear_arith) {
        reveal(is_linear);
    }
    assert(is_linear(231, 799102738014409)) by (nonlinear_arith) {
        reveal(is_linear);
    }
    assert(is_linear(232, 806952257669251)) by (nonlinear_arith) {
        reveal(is_linear);
    }
    assert(is_linear(233, 814846572216101)) by (nonlinear_arith) {
        reveal(is_linear);
    }
    assert(is_linear(234, 822785754396283)) by (nonlinear_arith) {
        reveal(is_linear);
    }
    assert(is_linear(235, 830769876774655)) by (nonlinear_arith) {
        reveal(is_linear);
    }
    assert(is_linear(236, 838799011740740)) by (nonlinear_arith) {
        reveal(is_linear);
    }
    assert(is_linear(237, 846873231509858)) by (nonlinear_arith) {
        reveal(is_linear);
    }
    assert(is_linear(238, 854992608124234)) by (nonlinear_arith) {
        reveal(is_linear);
    }
    assert(is_linear(239, 863157213454102)) by (nonlinear_arith) {
        reveal(is_linear);
    }
    assert(is_linear(240, 871367119198797)) by (nonlinear_arith) {
        reveal(is_linear);
    }
    assert(is_linear(241, 879622396887832)) by (nonlinear_arith) {
        reveal(is_linear);
    }
    assert(is_linear(242, 887923117881966)) by (nonlinear_arith) {
        reveal(is_linear);
    }
    assert(is_linear(243, 896269353374267)) by (nonlinear_arith) {
        reveal(is_linear);
    }
    assert(is_linear(244, 904661174391149)) by (nonlinear_arith) {
        reveal(is_linear);
    }
    assert(is_linear(245, 913098651793419)) by (nonlinear_arith) {
        reveal(is_linear);
    }
    assert(is_linear(246, 921581856277294)) by (nonlinear_arith) {
        reveal(is_linear);
    }
    assert(is_linear(247, 930110858375423)) by (nonlinear_arith) {
        reveal(is_linear);
    }
    assert(is_linear(248, 938685728457888)) by (nonlinear_arith) {
        reveal(is_linear);
    }
    assert(is_linear(249, 947306536733200)) by (nonlinear_arith) {
        reveal(is_linear);
    }
    assert(is_linear(250, 955973353249286)) by (nonlinear_arith) {
        reveal(is_linear);
    }
    assert(is_linear(251, 964686247894465)) by (nonlinear_arith) {
        reveal(is_linear);
    }
    assert(is_linear(252, 973445290398412)) by (nonlinear_arith) {
        reveal(is_linear);
    }
    assert(is_linear(253, 982250550333117)) by (nonlinear_arith) {
        reveal(is_linear);
    }
    assert(is_linear(254, 991102097113830)) by (nonlinear_arith) {
        reveal(is_linear);
    }
    assert(is_linear(255, 1000000000000000)) by (nonlinear_arith) {
        reveal(is_linear);
    }
}

/// The table holds the sRGB linear value of every channel value, rounded to the
/// nearest unit.
pub proof fn law_table_is_srgb(c: int)
    requires
        0 <= c < 256,
    ensures
        is_linear(c, LINEAR@[c] as int),
{
    if c < 32 {
        lemma_linear_0(c);
    } else if c < 64 {
        lemma_linear_1(c);
    } else if c < 96 {
        lemma_linear_2(c);
    } else if c < 128 {
        lemma_linear_3(c);
    } else if c < 160 {
        lemma_linear_4(c);
    } else if c < 192 {
        lemma_linear_5(c);
    } else if c < 224 {
        lemma_linear_6(c);
    } else {
        lemma_linear_7(c);
    }
}

} // verus!
