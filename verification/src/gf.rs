//! The field GF(256) of the QR standard: multiplication modulo the
//! polynomial x^8 + x^4 + x^3 + x^2 + 1 (0x11D), the powers of its
//! generator 2, and the facts that make the logarithm tables exact.

use vstd::prelude::*;

verus! {

/// Multiplication by x (the element 2) modulo 0x11D.
pub open spec fn xtime_spec(value: u8) -> u8 {
    if (value & 0x80u8) != 0 {
        (value << 1u8) ^ 0x1Du8
    } else {
        value << 1u8
    }
}

/// Field multiplication: the carry-less product of `a` and `b` reduced
/// modulo 0x11D, summing `a * x^k` for every bit `k` set in `b`.
pub open spec fn gf_product(a: u8, b: u8) -> u8 {
    let a1 = xtime_spec(a);
    let a2 = xtime_spec(a1);
    let a3 = xtime_spec(a2);
    let a4 = xtime_spec(a3);
    let a5 = xtime_spec(a4);
    let a6 = xtime_spec(a5);
    let a7 = xtime_spec(a6);
    (if b & 0x01u8 != 0 { a } else { 0u8 }) ^ (if b & 0x02u8 != 0 { a1 } else { 0u8 }) ^ (if b
        & 0x04u8 != 0 { a2 } else { 0u8 }) ^ (if b & 0x08u8 != 0 { a3 } else { 0u8 }) ^ (if b
        & 0x10u8 != 0 { a4 } else { 0u8 }) ^ (if b & 0x20u8 != 0 { a5 } else { 0u8 }) ^ (if b
        & 0x40u8 != 0 { a6 } else { 0u8 }) ^ (if b & 0x80u8 != 0 { a7 } else { 0u8 })
}

/// The element 2 raised to the power `i`.
pub open spec fn gf_exp(i: nat) -> u8
    decreases i,
{
    if i == 0 {
        1
    } else {
        xtime_spec(gf_exp((i - 1) as nat))
    }
}

/// The last exponent `i < n` with `gf_exp(i) == value`, or 0 if there is none.
pub open spec fn last_exponent(value: u8, n: nat) -> nat
    decreases n,
{
    if n == 0 {
        0
    } else if gf_exp((n - 1) as nat) == value {
        (n - 1) as nat
    } else {
        last_exponent(value, (n - 1) as nat)
    }
}

/// The discrete logarithm of `value` to the base 2, as the logarithm table
/// records it: the last exponent below 255 at which the power is `value`.
pub open spec fn gf_log(value: u8) -> nat {
    last_exponent(value, 255)
}

/// The exponential table: entry `i` is 2 to the power `i`.
pub open spec fn exp_table_spec() -> Seq<u8> {
    Seq::new(255, |i: int| gf_exp(i as nat))
}

/// The logarithm table: entry `v` is `gf_log(v)`.
pub open spec fn log_table_spec() -> Seq<u8> {
    Seq::new(256, |v: int| gf_log(v as u8) as u8)
}

/// The discrete logarithms, one per field element (entry 0 is unused).
const LOG_VALUES: [u8; 256] = [
    0, 0, 1, 25, 2, 50, 26, 198, 3, 223, 51, 238, 27, 104, 199, 75, 4, 100, 224, 14, 52, 141,
    239, 129, 28, 193, 105, 248, 200, 8, 76, 113, 5, 138, 101, 47, 225, 36, 15, 33, 53, 147,
    142, 218, 240, 18, 130, 69, 29, 181, 194, 125, 106, 39, 249, 185, 201, 154, 9, 120, 77, 228,
    114, 166, 6, 191, 139, 98, 102, 221, 48, 253, 226, 152, 37, 179, 16, 145, 34, 136, 54, 208,
    148, 206, 143, 150, 219, 189, 241, 210, 19, 92, 131, 56, 70, 64, 30, 66, 182, 163, 195, 72,
    126, 110, 107, 58, 40, 84, 250, 133, 186, 61, 202, 94, 155, 159, 10, 21, 121, 43, 78, 212,
    229, 172, 115, 243, 167, 87, 7, 112, 192, 247, 140, 128, 99, 13, 103, 74, 222, 237, 49, 197,
    254, 24, 227, 165, 153, 119, 38, 184, 180, 124, 17, 68, 146, 217, 35, 32, 137, 46, 55, 63,
    209, 91, 149, 188, 207, 205, 144, 135, 151, 178, 220, 252, 190, 97, 242, 86, 211, 171, 20,
    42, 93, 158, 132, 60, 57, 83, 71, 109, 65, 162, 31, 45, 67, 216, 183, 123, 164, 118, 196,
    23, 73, 236, 127, 12, 111, 246, 108, 161, 59, 82, 41, 157, 85, 170, 251, 96, 134, 177, 187,
    204, 62, 90, 203, 89, 95, 176, 156, 169, 160, 81, 11, 245, 22, 235, 122, 117, 44, 215, 79,
    174, 213, 233, 230, 231, 173, 232, 116, 214, 244, 234, 168, 80, 88, 175
];

/// One multiplication by 2 for each power of 2.
proof fn lemma_xtime_steps()
    ensures
        ({
        &&& xtime_spec(1u8) == 2u8
        &&& xtime_spec(2u8) == 4u8
        &&& xtime_spec(4u8) == 8u8
        &&& xtime_spec(8u8) == 16u8
        &&& xtime_spec(16u8) == 32u8
        &&& xtime_spec(32u8) == 64u8
        &&& xtime_spec(64u8) == 128u8
        &&& xtime_spec(128u8) == 29u8
        &&& xtime_spec(29u8) == 58u8
        &&& xtime_spec(58u8) == 116u8
        &&& xtime_spec(116u8) == 232u8
        &&& xtime_spec(232u8) == 205u8
        &&& xtime_spec(205u8) == 135u8
        &&& xtime_spec(135u8) == 19u8
        &&& xtime_spec(19u8) == 38u8
        &&& xtime_spec(38u8) == 76u8
        &&& xtime_spec(76u8) == 152u8
        &&& xtime_spec(152u8) == 45u8
        &&& xtime_spec(45u8) == 90u8
        &&& xtime_spec(90u8) == 180u8
        &&& xtime_spec(180u8) == 117u8
        &&& xtime_spec(117u8) == 234u8
        &&& xtime_spec(234u8) == 201u8
        &&& xtime_spec(201u8) == 143u8
        &&& xtime_spec(143u8) == 3u8
        &&& xtime_spec(3u8) == 6u8
        &&& xtime_spec(6u8) == 12u8
        &&& xtime_spec(12u8) == 24u8
        &&& xtime_spec(24u8) == 48u8
        &&& xtime_spec(48u8) == 96u8
        &&& xtime_spec(96u8) == 192u8
        &&& xtime_spec(192u8) == 157u8
        &&& xtime_spec(157u8) == 39u8
        &&& xtime_spec(39u8) == 78u8
        &&& xtime_spec(78u8) == 156u8
        &&& xtime_spec(156u8) == 37u8
        &&& xtime_spec(37u8) == 74u8
        &&& xtime_spec(74u8) == 148u8
        &&& xtime_spec(148u8) == 53u8
        &&& xtime_spec(53u8) == 106u8
        &&& xtime_spec(106u8) == 212u8
        &&& xtime_spec(212u8) == 181u8
        &&& xtime_spec(181u8) == 119u8
        &&& xtime_spec(119u8) == 238u8
        &&& xtime_spec(238u8) == 193u8
        &&& xtime_spec(193u8) == 159u8
        &&& xtime_spec(159u8) == 35u8
        &&& xtime_spec(35u8) == 70u8
        &&& xtime_spec(70u8) == 140u8
        &&& xtime_spec(140u8) == 5u8
        &&& xtime_spec(5u8) == 10u8
        &&& xtime_spec(10u8) == 20u8
        &&& xtime_spec(20u8) == 40u8
        &&& xtime_spec(40u8) == 80u8
        &&& xtime_spec(80u8) == 160u8
        &&& xtime_spec(160u8) == 93u8
        &&& xtime_spec(93u8) == 186u8
        &&& xtime_spec(186u8) == 105u8
        &&& xtime_spec(105u8) == 210u8
        &&& xtime_spec(210u8) == 185u8
        &&& xtime_spec(185u8) == 111u8
        &&& xtime_spec(111u8) == 222u8
        &&& xtime_spec(222u8) == 161u8
        &&& xtime_spec(161u8) == 95u8
        &&& xtime_spec(95u8) == 190u8
        &&& xtime_spec(190u8) == 97u8
        &&& xtime_spec(97u8) == 194u8
        &&& xtime_spec(194u8) == 153u8
        &&& xtime_spec(153u8) == 47u8
        &&& xtime_spec(47u8) == 94u8
        &&& xtime_spec(94u8) == 188u8
        &&& xtime_spec(188u8) == 101u8
        &&& xtime_spec(101u8) == 202u8
        &&& xtime_spec(202u8) == 137u8
        &&& xtime_spec(137u8) == 15u8
        &&& xtime_spec(15u8) == 30u8
        &&& xtime_spec(30u8) == 60u8
        &&& xtime_spec(60u8) == 120u8
        &&& xtime_spec(120u8) == 240u8
        &&& xtime_spec(240u8) == 253u8
        &&& xtime_spec(253u8) == 231u8
        &&& xtime_spec(231u8) == 211u8
        &&& xtime_spec(211u8) == 187u8
        &&& xtime_spec(187u8) == 107u8
        &&& xtime_spec(107u8) == 214u8
        &&& xtime_spec(214u8) == 177u8
        &&& xtime_spec(177u8) == 127u8
        &&& xtime_spec(127u8) == 254u8
        &&& xtime_spec(254u8) == 225u8
        &&& xtime_spec(225u8) == 223u8
        &&& xtime_spec(223u8) == 163u8
        &&& xtime_spec(163u8) == 91u8
        &&& xtime_spec(91u8) == 182u8
        &&& xtime_spec(182u8) == 113u8
        &&& xtime_spec(113u8) == 226u8
        &&& xtime_spec(226u8) == 217u8
        &&& xtime_spec(217u8) == 175u8
        &&& xtime_spec(175u8) == 67u8
        &&& xtime_spec(67u8) == 134u8
        &&& xtime_spec(134u8) == 17u8
        &&& xtime_spec(17u8) == 34u8
        &&& xtime_spec(34u8) == 68u8
        &&& xtime_spec(68u8) == 136u8
        &&& xtime_spec(136u8) == 13u8
        &&& xtime_spec(13u8) == 26u8
        &&& xtime_spec(26u8) == 52u8
        &&& xtime_spec(52u8) == 104u8
        &&& xtime_spec(104u8) == 208u8
        &&& xtime_spec(208u8) == 189u8
        &&& xtime_spec(189u8) == 103u8
        &&& xtime_spec(103u8) == 206u8
        &&& xtime_spec(206u8) == 129u8
        &&& xtime_spec(129u8) == 31u8
        &&& xtime_spec(31u8) == 62u8
        &&& xtime_spec(62u8) == 124u8
        &&& xtime_spec(124u8) == 248u8
        &&& xtime_spec(248u8) == 237u8
        &&& xtime_spec(237u8) == 199u8
        &&& xtime_spec(199u8) == 147u8
        &&& xtime_spec(147u8) == 59u8
        &&& xtime_spec(59u8) == 118u8
        &&& xtime_spec(118u8) == 236u8
        &&& xtime_spec(236u8) == 197u8
        &&& xtime_spec(197u8) == 151u8
        &&& xtime_spec(151u8) == 51u8
        &&& xtime_spec(51u8) == 102u8
        &&& xtime_spec(102u8) == 204u8
        &&& xtime_spec(204u8) == 133u8
        &&& xtime_spec(133u8) == 23u8
        &&& xtime_spec(23u8) == 46u8
        &&& xtime_spec(46u8) == 92u8
        &&& xtime_spec(92u8) == 184u8
        &&& xtime_spec(184u8) == 109u8
        &&& xtime_spec(109u8) == 218u8
        &&& xtime_spec(218u8) == 169u8
        &&& xtime_spec(169u8) == 79u8
        &&& xtime_spec(79u8) == 158u8
        &&& xtime_spec(158u8) == 33u8
        &&& xtime_spec(33u8) == 66u8
        &&& xtime_spec(66u8) == 132u8
        &&& xtime_spec(132u8) == 21u8
        &&& xtime_spec(21u8) == 42u8
        &&& xtime_spec(42u8) == 84u8
        &&& xtime_spec(84u8) == 168u8
        &&& xtime_spec(168u8) == 77u8
        &&& xtime_spec(77u8) == 154u8
        &&& xtime_spec(154u8) == 41u8
        &&& xtime_spec(41u8) == 82u8
        &&& xtime_spec(82u8) == 164u8
        &&& xtime_spec(164u8) == 85u8
        &&& xtime_spec(85u8) == 170u8
        &&& xtime_spec(170u8) == 73u8
        &&& xtime_spec(73u8) == 146u8
        &&& xtime_spec(146u8) == 57u8
        &&& xtime_spec(57u8) == 114u8
        &&& xtime_spec(114u8) == 228u8
        &&& xtime_spec(228u8) == 213u8
        &&& xtime_spec(213u8) == 183u8
        &&& xtime_spec(183u8) == 115u8
        &&& xtime_spec(115u8) == 230u8
        &&& xtime_spec(230u8) == 209u8
        &&& xtime_spec(209u8) == 191u8
        &&& xtime_spec(191u8) == 99u8
        &&& xtime_spec(99u8) == 198u8
        &&& xtime_spec(198u8) == 145u8
        &&& xtime_spec(145u8) == 63u8
        &&& xtime_spec(63u8) == 126u8
        &&& xtime_spec(126u8) == 252u8
        &&& xtime_spec(252u8) == 229u8
        &&& xtime_spec(229u8) == 215u8
        &&& xtime_spec(215u8) == 179u8
        &&& xtime_spec(179u8) == 123u8
        &&& xtime_spec(123u8) == 246u8
        &&& xtime_spec(246u8) == 241u8
        &&& xtime_spec(241u8) == 255u8
        &&& xtime_spec(255u8) == 227u8
        &&& xtime_spec(227u8) == 219u8
        &&& xtime_spec(219u8) == 171u8
        &&& xtime_spec(171u8) == 75u8
        &&& xtime_spec(75u8) == 150u8
        &&& xtime_spec(150u8) == 49u8
        &&& xtime_spec(49u8) == 98u8
        &&& xtime_spec(98u8) == 196u8
        &&& xtime_spec(196u8) == 149u8
        &&& xtime_spec(149u8) == 55u8
        &&& xtime_spec(55u8) == 110u8
        &&& xtime_spec(110u8) == 220u8
        &&& xtime_spec(220u8) == 165u8
        &&& xtime_spec(165u8) == 87u8
        &&& xtime_spec(87u8) == 174u8
        &&& xtime_spec(174u8) == 65u8
        &&& xtime_spec(65u8) == 130u8
        &&& xtime_spec(130u8) == 25u8
        &&& xtime_spec(25u8) == 50u8
        &&& xtime_spec(50u8) == 100u8
        &&& xtime_spec(100u8) == 200u8
        &&& xtime_spec(200u8) == 141u8
        &&& xtime_spec(141u8) == 7u8
        &&& xtime_spec(7u8) == 14u8
        &&& xtime_spec(14u8) == 28u8
        &&& xtime_spec(28u8) == 56u8
        &&& xtime_spec(56u8) == 112u8
        &&& xtime_spec(112u8) == 224u8
        &&& xtime_spec(224u8) == 221u8
        &&& xtime_spec(221u8) == 167u8
        &&& xtime_spec(167u8) == 83u8
        &&& xtime_spec(83u8) == 166u8
        &&& xtime_spec(166u8) == 81u8
        &&& xtime_spec(81u8) == 162u8
        &&& xtime_spec(162u8) == 89u8
        &&& xtime_spec(89u8) == 178u8
        &&& xtime_spec(178u8) == 121u8
        &&& xtime_spec(121u8) == 242u8
        &&& xtime_spec(242u8) == 249u8
        &&& xtime_spec(249u8) == 239u8
        &&& xtime_spec(239u8) == 195u8
        &&& xtime_spec(195u8) == 155u8
        &&& xtime_spec(155u8) == 43u8
        &&& xtime_spec(43u8) == 86u8
        &&& xtime_spec(86u8) == 172u8
        &&& xtime_spec(172u8) == 69u8
        &&& xtime_spec(69u8) == 138u8
        &&& xtime_spec(138u8) == 9u8
        &&& xtime_spec(9u8) == 18u8
        &&& xtime_spec(18u8) == 36u8
        &&& xtime_spec(36u8) == 72u8
        &&& xtime_spec(72u8) == 144u8
        &&& xtime_spec(144u8) == 61u8
        &&& xtime_spec(61u8) == 122u8
        &&& xtime_spec(122u8) == 244u8
        &&& xtime_spec(244u8) == 245u8
        &&& xtime_spec(245u8) == 247u8
        &&& xtime_spec(247u8) == 243u8
        &&& xtime_spec(243u8) == 251u8
        &&& xtime_spec(251u8) == 235u8
        &&& xtime_spec(235u8) == 203u8
        &&& xtime_spec(203u8) == 139u8
        &&& xtime_spec(139u8) == 11u8
        &&& xtime_spec(11u8) == 22u8
        &&& xtime_spec(22u8) == 44u8
        &&& xtime_spec(44u8) == 88u8
        &&& xtime_spec(88u8) == 176u8
        &&& xtime_spec(176u8) == 125u8
        &&& xtime_spec(125u8) == 250u8
        &&& xtime_spec(250u8) == 233u8
        &&& xtime_spec(233u8) == 207u8
        &&& xtime_spec(207u8) == 131u8
        &&& xtime_spec(131u8) == 27u8
        &&& xtime_spec(27u8) == 54u8
        &&& xtime_spec(54u8) == 108u8
        &&& xtime_spec(108u8) == 216u8
        &&& xtime_spec(216u8) == 173u8
        &&& xtime_spec(173u8) == 71u8
        &&& xtime_spec(71u8) == 142u8
        &&& xtime_spec(142u8) == 1u8
        }),
{
    assert({
        &&& xtime_spec(1u8) == 2u8
        &&& xtime_spec(2u8) == 4u8
        &&& xtime_spec(4u8) == 8u8
        &&& xtime_spec(8u8) == 16u8
        &&& xtime_spec(16u8) == 32u8
        &&& xtime_spec(32u8) == 64u8
        &&& xtime_spec(64u8) == 128u8
        &&& xtime_spec(128u8) == 29u8
        &&& xtime_spec(29u8) == 58u8
        &&& xtime_spec(58u8) == 116u8
        &&& xtime_spec(116u8) == 232u8
        &&& xtime_spec(232u8) == 205u8
        &&& xtime_spec(205u8) == 135u8
        &&& xtime_spec(135u8) == 19u8
        &&& xtime_spec(19u8) == 38u8
        &&& xtime_spec(38u8) == 76u8
        &&& xtime_spec(76u8) == 152u8
        &&& xtime_spec(152u8) == 45u8
        &&& xtime_spec(45u8) == 90u8
        &&& xtime_spec(90u8) == 180u8
        &&& xtime_spec(180u8) == 117u8
        &&& xtime_spec(117u8) == 234u8
        &&& xtime_spec(234u8) == 201u8
        &&& xtime_spec(201u8) == 143u8
        &&& xtime_spec(143u8) == 3u8
        &&& xtime_spec(3u8) == 6u8
        &&& xtime_spec(6u8) == 12u8
        &&& xtime_spec(12u8) == 24u8
        &&& xtime_spec(24u8) == 48u8
        &&& xtime_spec(48u8) == 96u8
        &&& xtime_spec(96u8) == 192u8
        &&& xtime_spec(192u8) == 157u8
        &&& xtime_spec(157u8) == 39u8
        &&& xtime_spec(39u8) == 78u8
        &&& xtime_spec(78u8) == 156u8
        &&& xtime_spec(156u8) == 37u8
        &&& xtime_spec(37u8) == 74u8
        &&& xtime_spec(74u8) == 148u8
        &&& xtime_spec(148u8) == 53u8
        &&& xtime_spec(53u8) == 106u8
        &&& xtime_spec(106u8) == 212u8
        &&& xtime_spec(212u8) == 181u8
        &&& xtime_spec(181u8) == 119u8
        &&& xtime_spec(119u8) == 238u8
        &&& xtime_spec(238u8) == 193u8
        &&& xtime_spec(193u8) == 159u8
        &&& xtime_spec(159u8) == 35u8
        &&& xtime_spec(35u8) == 70u8
        &&& xtime_spec(70u8) == 140u8
        &&& xtime_spec(140u8) == 5u8
        &&& xtime_spec(5u8) == 10u8
        &&& xtime_spec(10u8) == 20u8
        &&& xtime_spec(20u8) == 40u8
        &&& xtime_spec(40u8) == 80u8
        &&& xtime_spec(80u8) == 160u8
        &&& xtime_spec(160u8) == 93u8
        &&& xtime_spec(93u8) == 186u8
        &&& xtime_spec(186u8) == 105u8
        &&& xtime_spec(105u8) == 210u8
        &&& xtime_spec(210u8) == 185u8
        &&& xtime_spec(185u8) == 111u8
        &&& xtime_spec(111u8) == 222u8
        &&& xtime_spec(222u8) == 161u8
        &&& xtime_spec(161u8) == 95u8
        &&& xtime_spec(95u8) == 190u8
        &&& xtime_spec(190u8) == 97u8
        &&& xtime_spec(97u8) == 194u8
        &&& xtime_spec(194u8) == 153u8
        &&& xtime_spec(153u8) == 47u8
        &&& xtime_spec(47u8) == 94u8
        &&& xtime_spec(94u8) == 188u8
        &&& xtime_spec(188u8) == 101u8
        &&& xtime_spec(101u8) == 202u8
        &&& xtime_spec(202u8) == 137u8
        &&& xtime_spec(137u8) == 15u8
        &&& xtime_spec(15u8) == 30u8
        &&& xtime_spec(30u8) == 60u8
        &&& xtime_spec(60u8) == 120u8
        &&& xtime_spec(120u8) == 240u8
        &&& xtime_spec(240u8) == 253u8
        &&& xtime_spec(253u8) == 231u8
        &&& xtime_spec(231u8) == 211u8
        &&& xtime_spec(211u8) == 187u8
        &&& xtime_spec(187u8) == 107u8
        &&& xtime_spec(107u8) == 214u8
        &&& xtime_spec(214u8) == 177u8
        &&& xtime_spec(177u8) == 127u8
        &&& xtime_spec(127u8) == 254u8
        &&& xtime_spec(254u8) == 225u8
        &&& xtime_spec(225u8) == 223u8
        &&& xtime_spec(223u8) == 163u8
        &&& xtime_spec(163u8) == 91u8
        &&& xtime_spec(91u8) == 182u8
        &&& xtime_spec(182u8) == 113u8
        &&& xtime_spec(113u8) == 226u8
        &&& xtime_spec(226u8) == 217u8
        &&& xtime_spec(217u8) == 175u8
        &&& xtime_spec(175u8) == 67u8
        &&& xtime_spec(67u8) == 134u8
        &&& xtime_spec(134u8) == 17u8
        &&& xtime_spec(17u8) == 34u8
        &&& xtime_spec(34u8) == 68u8
        &&& xtime_spec(68u8) == 136u8
        &&& xtime_spec(136u8) == 13u8
        &&& xtime_spec(13u8) == 26u8
        &&& xtime_spec(26u8) == 52u8
        &&& xtime_spec(52u8) == 104u8
        &&& xtime_spec(104u8) == 208u8
        &&& xtime_spec(208u8) == 189u8
        &&& xtime_spec(189u8) == 103u8
        &&& xtime_spec(103u8) == 206u8
        &&& xtime_spec(206u8) == 129u8
        &&& xtime_spec(129u8) == 31u8
        &&& xtime_spec(31u8) == 62u8
        &&& xtime_spec(62u8) == 124u8
        &&& xtime_spec(124u8) == 248u8
        &&& xtime_spec(248u8) == 237u8
        &&& xtime_spec(237u8) == 199u8
        &&& xtime_spec(199u8) == 147u8
        &&& xtime_spec(147u8) == 59u8
        &&& xtime_spec(59u8) == 118u8
        &&& xtime_spec(118u8) == 236u8
        &&& xtime_spec(236u8) == 197u8
        &&& xtime_spec(197u8) == 151u8
        &&& xtime_spec(151u8) == 51u8
        &&& xtime_spec(51u8) == 102u8
        &&& xtime_spec(102u8) == 204u8
        &&& xtime_spec(204u8) == 133u8
        &&& xtime_spec(133u8) == 23u8
        &&& xtime_spec(23u8) == 46u8
        &&& xtime_spec(46u8) == 92u8
        &&& xtime_spec(92u8) == 184u8
        &&& xtime_spec(184u8) == 109u8
        &&& xtime_spec(109u8) == 218u8
        &&& xtime_spec(218u8) == 169u8
        &&& xtime_spec(169u8) == 79u8
        &&& xtime_spec(79u8) == 158u8
        &&& xtime_spec(158u8) == 33u8
        &&& xtime_spec(33u8) == 66u8
        &&& xtime_spec(66u8) == 132u8
        &&& xtime_spec(132u8) == 21u8
        &&& xtime_spec(21u8) == 42u8
        &&& xtime_spec(42u8) == 84u8
        &&& xtime_spec(84u8) == 168u8
        &&& xtime_spec(168u8) == 77u8
        &&& xtime_spec(77u8) == 154u8
        &&& xtime_spec(154u8) == 41u8
        &&& xtime_spec(41u8) == 82u8
        &&& xtime_spec(82u8) == 164u8
        &&& xtime_spec(164u8) == 85u8
        &&& xtime_spec(85u8) == 170u8
        &&& xtime_spec(170u8) == 73u8
        &&& xtime_spec(73u8) == 146u8
        &&& xtime_spec(146u8) == 57u8
        &&& xtime_spec(57u8) == 114u8
        &&& xtime_spec(114u8) == 228u8
        &&& xtime_spec(228u8) == 213u8
        &&& xtime_spec(213u8) == 183u8
        &&& xtime_spec(183u8) == 115u8
        &&& xtime_spec(115u8) == 230u8
        &&& xtime_spec(230u8) == 209u8
        &&& xtime_spec(209u8) == 191u8
        &&& xtime_spec(191u8) == 99u8
        &&& xtime_spec(99u8) == 198u8
        &&& xtime_spec(198u8) == 145u8
        &&& xtime_spec(145u8) == 63u8
        &&& xtime_spec(63u8) == 126u8
        &&& xtime_spec(126u8) == 252u8
        &&& xtime_spec(252u8) == 229u8
        &&& xtime_spec(229u8) == 215u8
        &&& xtime_spec(215u8) == 179u8
        &&& xtime_spec(179u8) == 123u8
        &&& xtime_spec(123u8) == 246u8
        &&& xtime_spec(246u8) == 241u8
        &&& xtime_spec(241u8) == 255u8
        &&& xtime_spec(255u8) == 227u8
        &&& xtime_spec(227u8) == 219u8
        &&& xtime_spec(219u8) == 171u8
        &&& xtime_spec(171u8) == 75u8
        &&& xtime_spec(75u8) == 150u8
        &&& xtime_spec(150u8) == 49u8
        &&& xtime_spec(49u8) == 98u8
        &&& xtime_spec(98u8) == 196u8
        &&& xtime_spec(196u8) == 149u8
        &&& xtime_spec(149u8) == 55u8
        &&& xtime_spec(55u8) == 110u8
        &&& xtime_spec(110u8) == 220u8
        &&& xtime_spec(220u8) == 165u8
        &&& xtime_spec(165u8) == 87u8
        &&& xtime_spec(87u8) == 174u8
        &&& xtime_spec(174u8) == 65u8
        &&& xtime_spec(65u8) == 130u8
        &&& xtime_spec(130u8) == 25u8
        &&& xtime_spec(25u8) == 50u8
        &&& xtime_spec(50u8) == 100u8
        &&& xtime_spec(100u8) == 200u8
        &&& xtime_spec(200u8) == 141u8
        &&& xtime_spec(141u8) == 7u8
        &&& xtime_spec(7u8) == 14u8
        &&& xtime_spec(14u8) == 28u8
        &&& xtime_spec(28u8) == 56u8
        &&& xtime_spec(56u8) == 112u8
        &&& xtime_spec(112u8) == 224u8
        &&& xtime_spec(224u8) == 221u8
        &&& xtime_spec(221u8) == 167u8
        &&& xtime_spec(167u8) == 83u8
        &&& xtime_spec(83u8) == 166u8
        &&& xtime_spec(166u8) == 81u8
        &&& xtime_spec(81u8) == 162u8
        &&& xtime_spec(162u8) == 89u8
        &&& xtime_spec(89u8) == 178u8
        &&& xtime_spec(178u8) == 121u8
        &&& xtime_spec(121u8) == 242u8
        &&& xtime_spec(242u8) == 249u8
        &&& xtime_spec(249u8) == 239u8
        &&& xtime_spec(239u8) == 195u8
        &&& xtime_spec(195u8) == 155u8
        &&& xtime_spec(155u8) == 43u8
        &&& xtime_spec(43u8) == 86u8
        &&& xtime_spec(86u8) == 172u8
        &&& xtime_spec(172u8) == 69u8
        &&& xtime_spec(69u8) == 138u8
        &&& xtime_spec(138u8) == 9u8
        &&& xtime_spec(9u8) == 18u8
        &&& xtime_spec(18u8) == 36u8
        &&& xtime_spec(36u8) == 72u8
        &&& xtime_spec(72u8) == 144u8
        &&& xtime_spec(144u8) == 61u8
        &&& xtime_spec(61u8) == 122u8
        &&& xtime_spec(122u8) == 244u8
        &&& xtime_spec(244u8) == 245u8
        &&& xtime_spec(245u8) == 247u8
        &&& xtime_spec(247u8) == 243u8
        &&& xtime_spec(243u8) == 251u8
        &&& xtime_spec(251u8) == 235u8
        &&& xtime_spec(235u8) == 203u8
        &&& xtime_spec(203u8) == 139u8
        &&& xtime_spec(139u8) == 11u8
        &&& xtime_spec(11u8) == 22u8
        &&& xtime_spec(22u8) == 44u8
        &&& xtime_spec(44u8) == 88u8
        &&& xtime_spec(88u8) == 176u8
        &&& xtime_spec(176u8) == 125u8
        &&& xtime_spec(125u8) == 250u8
        &&& xtime_spec(250u8) == 233u8
        &&& xtime_spec(233u8) == 207u8
        &&& xtime_spec(207u8) == 131u8
        &&& xtime_spec(131u8) == 27u8
        &&& xtime_spec(27u8) == 54u8
        &&& xtime_spec(54u8) == 108u8
        &&& xtime_spec(108u8) == 216u8
        &&& xtime_spec(216u8) == 173u8
        &&& xtime_spec(173u8) == 71u8
        &&& xtime_spec(71u8) == 142u8
        &&& xtime_spec(142u8) == 1u8
    }) by (bit_vector);
}

/// The powers 2^0 through 2^255.
proof fn lemma_exp_values()
    ensures
        gf_exp(0) == 1u8,
        gf_exp(1) == 2u8,
        gf_exp(2) == 4u8,
        gf_exp(3) == 8u8,
        gf_exp(4) == 16u8,
        gf_exp(5) == 32u8,
        gf_exp(6) == 64u8,
        gf_exp(7) == 128u8,
        gf_exp(8) == 29u8,
        gf_exp(9) == 58u8,
        gf_exp(10) == 116u8,
        gf_exp(11) == 232u8,
        gf_exp(12) == 205u8,
        gf_exp(13) == 135u8,
        gf_exp(14) == 19u8,
        gf_exp(15) == 38u8,
        gf_exp(16) == 76u8,
        gf_exp(17) == 152u8,
        gf_exp(18) == 45u8,
        gf_exp(19) == 90u8,
        gf_exp(20) == 180u8,
        gf_exp(21) == 117u8,
        gf_exp(22) == 234u8,
        gf_exp(23) == 201u8,
        gf_exp(24) == 143u8,
        gf_exp(25) == 3u8,
        gf_exp(26) == 6u8,
        gf_exp(27) == 12u8,
        gf_exp(28) == 24u8,
        gf_exp(29) == 48u8,
        gf_exp(30) == 96u8,
        gf_exp(31) == 192u8,
        gf_exp(32) == 157u8,
        gf_exp(33) == 39u8,
        gf_exp(34) == 78u8,
        gf_exp(35) == 156u8,
        gf_exp(36) == 37u8,
        gf_exp(37) == 74u8,
        gf_exp(38) == 148u8,
        gf_exp(39) == 53u8,
        gf_exp(40) == 106u8,
        gf_exp(41) == 212u8,
        gf_exp(42) == 181u8,
        gf_exp(43) == 119u8,
        gf_exp(44) == 238u8,
        gf_exp(45) == 193u8,
        gf_exp(46) == 159u8,
        gf_exp(47) == 35u8,
        gf_exp(48) == 70u8,
        gf_exp(49) == 140u8,
        gf_exp(50) == 5u8,
        gf_exp(51) == 10u8,
        gf_exp(52) == 20u8,
        gf_exp(53) == 40u8,
        gf_exp(54) == 80u8,
        gf_exp(55) == 160u8,
        gf_exp(56) == 93u8,
        gf_exp(57) == 186u8,
        gf_exp(58) == 105u8,
        gf_exp(59) == 210u8,
        gf_exp(60) == 185u8,
        gf_exp(61) == 111u8,
        gf_exp(62) == 222u8,
        gf_exp(63) == 161u8,
        gf_exp(64) == 95u8,
        gf_exp(65) == 190u8,
        gf_exp(66) == 97u8,
        gf_exp(67) == 194u8,
        gf_exp(68) == 153u8,
        gf_exp(69) == 47u8,
        gf_exp(70) == 94u8,
        gf_exp(71) == 188u8,
        gf_exp(72) == 101u8,
        gf_exp(73) == 202u8,
        gf_exp(74) == 137u8,
        gf_exp(75) == 15u8,
        gf_exp(76) == 30u8,
        gf_exp(77) == 60u8,
        gf_exp(78) == 120u8,
        gf_exp(79) == 240u8,
        gf_exp(80) == 253u8,
        gf_exp(81) == 231u8,
        gf_exp(82) == 211u8,
        gf_exp(83) == 187u8,
        gf_exp(84) == 107u8,
        gf_exp(85) == 214u8,
        gf_exp(86) == 177u8,
        gf_exp(87) == 127u8,
        gf_exp(88) == 254u8,
        gf_exp(89) == 225u8,
        gf_exp(90) == 223u8,
        gf_exp(91) == 163u8,
        gf_exp(92) == 91u8,
        gf_exp(93) == 182u8,
        gf_exp(94) == 113u8,
        gf_exp(95) == 226u8,
        gf_exp(96) == 217u8,
        gf_exp(97) == 175u8,
        gf_exp(98) == 67u8,
        gf_exp(99) == 134u8,
        gf_exp(100) == 17u8,
        gf_exp(101) == 34u8,
        gf_exp(102) == 68u8,
        gf_exp(103) == 136u8,
        gf_exp(104) == 13u8,
        gf_exp(105) == 26u8,
        gf_exp(106) == 52u8,
        gf_exp(107) == 104u8,
        gf_exp(108) == 208u8,
        gf_exp(109) == 189u8,
        gf_exp(110) == 103u8,
        gf_exp(111) == 206u8,
        gf_exp(112) == 129u8,
        gf_exp(113) == 31u8,
        gf_exp(114) == 62u8,
        gf_exp(115) == 124u8,
        gf_exp(116) == 248u8,
        gf_exp(117) == 237u8,
        gf_exp(118) == 199u8,
        gf_exp(119) == 147u8,
        gf_exp(120) == 59u8,
        gf_exp(121) == 118u8,
        gf_exp(122) == 236u8,
        gf_exp(123) == 197u8,
        gf_exp(124) == 151u8,
        gf_exp(125) == 51u8,
        gf_exp(126) == 102u8,
        gf_exp(127) == 204u8,
        gf_exp(128) == 133u8,
        gf_exp(129) == 23u8,
        gf_exp(130) == 46u8,
        gf_exp(131) == 92u8,
        gf_exp(132) == 184u8,
        gf_exp(133) == 109u8,
        gf_exp(134) == 218u8,
        gf_exp(135) == 169u8,
        gf_exp(136) == 79u8,
        gf_exp(137) == 158u8,
        gf_exp(138) == 33u8,
        gf_exp(139) == 66u8,
        gf_exp(140) == 132u8,
        gf_exp(141) == 21u8,
        gf_exp(142) == 42u8,
        gf_exp(143) == 84u8,
        gf_exp(144) == 168u8,
        gf_exp(145) == 77u8,
        gf_exp(146) == 154u8,
        gf_exp(147) == 41u8,
        gf_exp(148) == 82u8,
        gf_exp(149) == 164u8,
        gf_exp(150) == 85u8,
        gf_exp(151) == 170u8,
        gf_exp(152) == 73u8,
        gf_exp(153) == 146u8,
        gf_exp(154) == 57u8,
        gf_exp(155) == 114u8,
        gf_exp(156) == 228u8,
        gf_exp(157) == 213u8,
        gf_exp(158) == 183u8,
        gf_exp(159) == 115u8,
        gf_exp(160) == 230u8,
        gf_exp(161) == 209u8,
        gf_exp(162) == 191u8,
        gf_exp(163) == 99u8,
        gf_exp(164) == 198u8,
        gf_exp(165) == 145u8,
        gf_exp(166) == 63u8,
        gf_exp(167) == 126u8,
        gf_exp(168) == 252u8,
        gf_exp(169) == 229u8,
        gf_exp(170) == 215u8,
        gf_exp(171) == 179u8,
        gf_exp(172) == 123u8,
        gf_exp(173) == 246u8,
        gf_exp(174) == 241u8,
        gf_exp(175) == 255u8,
        gf_exp(176) == 227u8,
        gf_exp(177) == 219u8,
        gf_exp(178) == 171u8,
        gf_exp(179) == 75u8,
        gf_exp(180) == 150u8,
        gf_exp(181) == 49u8,
        gf_exp(182) == 98u8,
        gf_exp(183) == 196u8,
        gf_exp(184) == 149u8,
        gf_exp(185) == 55u8,
        gf_exp(186) == 110u8,
        gf_exp(187) == 220u8,
        gf_exp(188) == 165u8,
        gf_exp(189) == 87u8,
        gf_exp(190) == 174u8,
        gf_exp(191) == 65u8,
        gf_exp(192) == 130u8,
        gf_exp(193) == 25u8,
        gf_exp(194) == 50u8,
        gf_exp(195) == 100u8,
        gf_exp(196) == 200u8,
        gf_exp(197) == 141u8,
        gf_exp(198) == 7u8,
        gf_exp(199) == 14u8,
        gf_exp(200) == 28u8,
        gf_exp(201) == 56u8,
        gf_exp(202) == 112u8,
        gf_exp(203) == 224u8,
        gf_exp(204) == 221u8,
        gf_exp(205) == 167u8,
        gf_exp(206) == 83u8,
        gf_exp(207) == 166u8,
        gf_exp(208) == 81u8,
        gf_exp(209) == 162u8,
        gf_exp(210) == 89u8,
        gf_exp(211) == 178u8,
        gf_exp(212) == 121u8,
        gf_exp(213) == 242u8,
        gf_exp(214) == 249u8,
        gf_exp(215) == 239u8,
        gf_exp(216) == 195u8,
        gf_exp(217) == 155u8,
        gf_exp(218) == 43u8,
        gf_exp(219) == 86u8,
        gf_exp(220) == 172u8,
        gf_exp(221) == 69u8,
        gf_exp(222) == 138u8,
        gf_exp(223) == 9u8,
        gf_exp(224) == 18u8,
        gf_exp(225) == 36u8,
        gf_exp(226) == 72u8,
        gf_exp(227) == 144u8,
        gf_exp(228) == 61u8,
        gf_exp(229) == 122u8,
        gf_exp(230) == 244u8,
        gf_exp(231) == 245u8,
        gf_exp(232) == 247u8,
        gf_exp(233) == 243u8,
        gf_exp(234) == 251u8,
        gf_exp(235) == 235u8,
        gf_exp(236) == 203u8,
        gf_exp(237) == 139u8,
        gf_exp(238) == 11u8,
        gf_exp(239) == 22u8,
        gf_exp(240) == 44u8,
        gf_exp(241) == 88u8,
        gf_exp(242) == 176u8,
        gf_exp(243) == 125u8,
        gf_exp(244) == 250u8,
        gf_exp(245) == 233u8,
        gf_exp(246) == 207u8,
        gf_exp(247) == 131u8,
        gf_exp(248) == 27u8,
        gf_exp(249) == 54u8,
        gf_exp(250) == 108u8,
        gf_exp(251) == 216u8,
        gf_exp(252) == 173u8,
        gf_exp(253) == 71u8,
        gf_exp(254) == 142u8,
        gf_exp(255) == 1u8,
{
    lemma_xtime_steps();
    assert(gf_exp(0) == 1u8);
    assert(gf_exp(1) == 2u8);
    assert(gf_exp(2) == 4u8);
    assert(gf_exp(3) == 8u8);
    assert(gf_exp(4) == 16u8);
    assert(gf_exp(5) == 32u8);
    assert(gf_exp(6) == 64u8);
    assert(gf_exp(7) == 128u8);
    assert(gf_exp(8) == 29u8);
    assert(gf_exp(9) == 58u8);
    assert(gf_exp(10) == 116u8);
    assert(gf_exp(11) == 232u8);
    assert(gf_exp(12) == 205u8);
    assert(gf_exp(13) == 135u8);
    assert(gf_exp(14) == 19u8);
    assert(gf_exp(15) == 38u8);
    assert(gf_exp(16) == 76u8);
    assert(gf_exp(17) == 152u8);
    assert(gf_exp(18) == 45u8);
    assert(gf_exp(19) == 90u8);
    assert(gf_exp(20) == 180u8);
    assert(gf_exp(21) == 117u8);
    assert(gf_exp(22) == 234u8);
    assert(gf_exp(23) == 201u8);
    assert(gf_exp(24) == 143u8);
    assert(gf_exp(25) == 3u8);
    assert(gf_exp(26) == 6u8);
    assert(gf_exp(27) == 12u8);
    assert(gf_exp(28) == 24u8);
    assert(gf_exp(29) == 48u8);
    assert(gf_exp(30) == 96u8);
    assert(gf_exp(31) == 192u8);
    assert(gf_exp(32) == 157u8);
    assert(gf_exp(33) == 39u8);
    assert(gf_exp(34) == 78u8);
    assert(gf_exp(35) == 156u8);
    assert(gf_exp(36) == 37u8);
    assert(gf_exp(37) == 74u8);
    assert(gf_exp(38) == 148u8);
    assert(gf_exp(39) == 53u8);
    assert(gf_exp(40) == 106u8);
    assert(gf_exp(41) == 212u8);
    assert(gf_exp(42) == 181u8);
    assert(gf_exp(43) == 119u8);
    assert(gf_exp(44) == 238u8);
    assert(gf_exp(45) == 193u8);
    assert(gf_exp(46) == 159u8);
    assert(gf_exp(47) == 35u8);
    assert(gf_exp(48) == 70u8);
    assert(gf_exp(49) == 140u8);
    assert(gf_exp(50) == 5u8);
    assert(gf_exp(51) == 10u8);
    assert(gf_exp(52) == 20u8);
    assert(gf_exp(53) == 40u8);
    assert(gf_exp(54) == 80u8);
    assert(gf_exp(55) == 160u8);
    assert(gf_exp(56) == 93u8);
    assert(gf_exp(57) == 186u8);
    assert(gf_exp(58) == 105u8);
    assert(gf_exp(59) == 210u8);
    assert(gf_exp(60) == 185u8);
    assert(gf_exp(61) == 111u8);
    assert(gf_exp(62) == 222u8);
    assert(gf_exp(63) == 161u8);
    assert(gf_exp(64) == 95u8);
    assert(gf_exp(65) == 190u8);
    assert(gf_exp(66) == 97u8);
    assert(gf_exp(67) == 194u8);
    assert(gf_exp(68) == 153u8);
    assert(gf_exp(69) == 47u8);
    assert(gf_exp(70) == 94u8);
    assert(gf_exp(71) == 188u8);
    assert(gf_exp(72) == 101u8);
    assert(gf_exp(73) == 202u8);
    assert(gf_exp(74) == 137u8);
    assert(gf_exp(75) == 15u8);
    assert(gf_exp(76) == 30u8);
    assert(gf_exp(77) == 60u8);
    assert(gf_exp(78) == 120u8);
    assert(gf_exp(79) == 240u8);
    assert(gf_exp(80) == 253u8);
    assert(gf_exp(81) == 231u8);
    assert(gf_exp(82) == 211u8);
    assert(gf_exp(83) == 187u8);
    assert(gf_exp(84) == 107u8);
    assert(gf_exp(85) == 214u8);
    assert(gf_exp(86) == 177u8);
    assert(gf_exp(87) == 127u8);
    assert(gf_exp(88) == 254u8);
    assert(gf_exp(89) == 225u8);
    assert(gf_exp(90) == 223u8);
    assert(gf_exp(91) == 163u8);
    assert(gf_exp(92) == 91u8);
    assert(gf_exp(93) == 182u8);
    assert(gf_exp(94) == 113u8);
    assert(gf_exp(95) == 226u8);
    assert(gf_exp(96) == 217u8);
    assert(gf_exp(97) == 175u8);
    assert(gf_exp(98) == 67u8);
    assert(gf_exp(99) == 134u8);
    assert(gf_exp(100) == 17u8);
    assert(gf_exp(101) == 34u8);
    assert(gf_exp(102) == 68u8);
    assert(gf_exp(103) == 136u8);
    assert(gf_exp(104) == 13u8);
    assert(gf_exp(105) == 26u8);
    assert(gf_exp(106) == 52u8);
    assert(gf_exp(107) == 104u8);
    assert(gf_exp(108) == 208u8);
    assert(gf_exp(109) == 189u8);
    assert(gf_exp(110) == 103u8);
    assert(gf_exp(111) == 206u8);
    assert(gf_exp(112) == 129u8);
    assert(gf_exp(113) == 31u8);
    assert(gf_exp(114) == 62u8);
    assert(gf_exp(115) == 124u8);
    assert(gf_exp(116) == 248u8);
    assert(gf_exp(117) == 237u8);
    assert(gf_exp(118) == 199u8);
    assert(gf_exp(119) == 147u8);
    assert(gf_exp(120) == 59u8);
    assert(gf_exp(121) == 118u8);
    assert(gf_exp(122) == 236u8);
    assert(gf_exp(123) == 197u8);
    assert(gf_exp(124) == 151u8);
    assert(gf_exp(125) == 51u8);
    assert(gf_exp(126) == 102u8);
    assert(gf_exp(127) == 204u8);
    assert(gf_exp(128) == 133u8);
    assert(gf_exp(129) == 23u8);
    assert(gf_exp(130) == 46u8);
    assert(gf_exp(131) == 92u8);
    assert(gf_exp(132) == 184u8);
    assert(gf_exp(133) == 109u8);
    assert(gf_exp(134) == 218u8);
    assert(gf_exp(135) == 169u8);
    assert(gf_exp(136) == 79u8);
    assert(gf_exp(137) == 158u8);
    assert(gf_exp(138) == 33u8);
    assert(gf_exp(139) == 66u8);
    assert(gf_exp(140) == 132u8);
    assert(gf_exp(141) == 21u8);
    assert(gf_exp(142) == 42u8);
    assert(gf_exp(143) == 84u8);
    assert(gf_exp(144) == 168u8);
    assert(gf_exp(145) == 77u8);
    assert(gf_exp(146) == 154u8);
    assert(gf_exp(147) == 41u8);
    assert(gf_exp(148) == 82u8);
    assert(gf_exp(149) == 164u8);
    assert(gf_exp(150) == 85u8);
    assert(gf_exp(151) == 170u8);
    assert(gf_exp(152) == 73u8);
    assert(gf_exp(153) == 146u8);
    assert(gf_exp(154) == 57u8);
    assert(gf_exp(155) == 114u8);
    assert(gf_exp(156) == 228u8);
    assert(gf_exp(157) == 213u8);
    assert(gf_exp(158) == 183u8);
    assert(gf_exp(159) == 115u8);
    assert(gf_exp(160) == 230u8);
    assert(gf_exp(161) == 209u8);
    assert(gf_exp(162) == 191u8);
    assert(gf_exp(163) == 99u8);
    assert(gf_exp(164) == 198u8);
    assert(gf_exp(165) == 145u8);
    assert(gf_exp(166) == 63u8);
    assert(gf_exp(167) == 126u8);
    assert(gf_exp(168) == 252u8);
    assert(gf_exp(169) == 229u8);
    assert(gf_exp(170) == 215u8);
    assert(gf_exp(171) == 179u8);
    assert(gf_exp(172) == 123u8);
    assert(gf_exp(173) == 246u8);
    assert(gf_exp(174) == 241u8);
    assert(gf_exp(175) == 255u8);
    assert(gf_exp(176) == 227u8);
    assert(gf_exp(177) == 219u8);
    assert(gf_exp(178) == 171u8);
    assert(gf_exp(179) == 75u8);
    assert(gf_exp(180) == 150u8);
    assert(gf_exp(181) == 49u8);
    assert(gf_exp(182) == 98u8);
    assert(gf_exp(183) == 196u8);
    assert(gf_exp(184) == 149u8);
    assert(gf_exp(185) == 55u8);
    assert(gf_exp(186) == 110u8);
    assert(gf_exp(187) == 220u8);
    assert(gf_exp(188) == 165u8);
    assert(gf_exp(189) == 87u8);
    assert(gf_exp(190) == 174u8);
    assert(gf_exp(191) == 65u8);
    assert(gf_exp(192) == 130u8);
    assert(gf_exp(193) == 25u8);
    assert(gf_exp(194) == 50u8);
    assert(gf_exp(195) == 100u8);
    assert(gf_exp(196) == 200u8);
    assert(gf_exp(197) == 141u8);
    assert(gf_exp(198) == 7u8);
    assert(gf_exp(199) == 14u8);
    assert(gf_exp(200) == 28u8);
    assert(gf_exp(201) == 56u8);
    assert(gf_exp(202) == 112u8);
    assert(gf_exp(203) == 224u8);
    assert(gf_exp(204) == 221u8);
    assert(gf_exp(205) == 167u8);
    assert(gf_exp(206) == 83u8);
    assert(gf_exp(207) == 166u8);
    assert(gf_exp(208) == 81u8);
    assert(gf_exp(209) == 162u8);
    assert(gf_exp(210) == 89u8);
    assert(gf_exp(211) == 178u8);
    assert(gf_exp(212) == 121u8);
    assert(gf_exp(213) == 242u8);
    assert(gf_exp(214) == 249u8);
    assert(gf_exp(215) == 239u8);
    assert(gf_exp(216) == 195u8);
    assert(gf_exp(217) == 155u8);
    assert(gf_exp(218) == 43u8);
    assert(gf_exp(219) == 86u8);
    assert(gf_exp(220) == 172u8);
    assert(gf_exp(221) == 69u8);
    assert(gf_exp(222) == 138u8);
    assert(gf_exp(223) == 9u8);
    assert(gf_exp(224) == 18u8);
    assert(gf_exp(225) == 36u8);
    assert(gf_exp(226) == 72u8);
    assert(gf_exp(227) == 144u8);
    assert(gf_exp(228) == 61u8);
    assert(gf_exp(229) == 122u8);
    assert(gf_exp(230) == 244u8);
    assert(gf_exp(231) == 245u8);
    assert(gf_exp(232) == 247u8);
    assert(gf_exp(233) == 243u8);
    assert(gf_exp(234) == 251u8);
    assert(gf_exp(235) == 235u8);
    assert(gf_exp(236) == 203u8);
    assert(gf_exp(237) == 139u8);
    assert(gf_exp(238) == 11u8);
    assert(gf_exp(239) == 22u8);
    assert(gf_exp(240) == 44u8);
    assert(gf_exp(241) == 88u8);
    assert(gf_exp(242) == 176u8);
    assert(gf_exp(243) == 125u8);
    assert(gf_exp(244) == 250u8);
    assert(gf_exp(245) == 233u8);
    assert(gf_exp(246) == 207u8);
    assert(gf_exp(247) == 131u8);
    assert(gf_exp(248) == 27u8);
    assert(gf_exp(249) == 54u8);
    assert(gf_exp(250) == 108u8);
    assert(gf_exp(251) == 216u8);
    assert(gf_exp(252) == 173u8);
    assert(gf_exp(253) == 71u8);
    assert(gf_exp(254) == 142u8);
    assert(gf_exp(255) == 1u8);
}

/// The logarithm table inverts the powers of 2 below 255.
proof fn lemma_log_values_of_exp(k: nat)
    requires
        k < 255,
    ensures
        LOG_VALUES[gf_exp(k) as int] == k,
{
    lemma_exp_values();
    if k == 0 {
    } else if k == 1 {
    } else if k == 2 {
    } else if k == 3 {
    } else if k == 4 {
    } else if k == 5 {
    } else if k == 6 {
    } else if k == 7 {
    } else if k == 8 {
    } else if k == 9 {
    } else if k == 10 {
    } else if k == 11 {
    } else if k == 12 {
    } else if k == 13 {
    } else if k == 14 {
    } else if k == 15 {
    } else if k == 16 {
    } else if k == 17 {
    } else if k == 18 {
    } else if k == 19 {
    } else if k == 20 {
    } else if k == 21 {
    } else if k == 22 {
    } else if k == 23 {
    } else if k == 24 {
    } else if k == 25 {
    } else if k == 26 {
    } else if k == 27 {
    } else if k == 28 {
    } else if k == 29 {
    } else if k == 30 {
    } else if k == 31 {
    } else if k == 32 {
    } else if k == 33 {
    } else if k == 34 {
    } else if k == 35 {
    } else if k == 36 {
    } else if k == 37 {
    } else if k == 38 {
    } else if k == 39 {
    } else if k == 40 {
    } else if k == 41 {
    } else if k == 42 {
    } else if k == 43 {
    } else if k == 44 {
    } else if k == 45 {
    } else if k == 46 {
    } else if k == 47 {
    } else if k == 48 {
    } else if k == 49 {
    } else if k == 50 {
    } else if k == 51 {
    } else if k == 52 {
    } else if k == 53 {
    } else if k == 54 {
    } else if k == 55 {
    } else if k == 56 {
    } else if k == 57 {
    } else if k == 58 {
    } else if k == 59 {
    } else if k == 60 {
    } else if k == 61 {
    } else if k == 62 {
    } else if k == 63 {
    } else if k == 64 {
    } else if k == 65 {
    } else if k == 66 {
    } else if k == 67 {
    } else if k == 68 {
    } else if k == 69 {
    } else if k == 70 {
    } else if k == 71 {
    } else if k == 72 {
    } else if k == 73 {
    } else if k == 74 {
    } else if k == 75 {
    } else if k == 76 {
    } else if k == 77 {
    } else if k == 78 {
    } else if k == 79 {
    } else if k == 80 {
    } else if k == 81 {
    } else if k == 82 {
    } else if k == 83 {
    } else if k == 84 {
    } else if k == 85 {
    } else if k == 86 {
    } else if k == 87 {
    } else if k == 88 {
    } else if k == 89 {
    } else if k == 90 {
    } else if k == 91 {
    } else if k == 92 {
    } else if k == 93 {
    } else if k == 94 {
    } else if k == 95 {
    } else if k == 96 {
    } else if k == 97 {
    } else if k == 98 {
    } else if k == 99 {
    } else if k == 100 {
    } else if k == 101 {
    } else if k == 102 {
    } else if k == 103 {
    } else if k == 104 {
    } else if k == 105 {
    } else if k == 106 {
    } else if k == 107 {
    } else if k == 108 {
    } else if k == 109 {
    } else if k == 110 {
    } else if k == 111 {
    } else if k == 112 {
    } else if k == 113 {
    } else if k == 114 {
    } else if k == 115 {
    } else if k == 116 {
    } else if k == 117 {
    } else if k == 118 {
    } else if k == 119 {
    } else if k == 120 {
    } else if k == 121 {
    } else if k == 122 {
    } else if k == 123 {
    } else if k == 124 {
    } else if k == 125 {
    } else if k == 126 {
    } else if k == 127 {
    } else if k == 128 {
    } else if k == 129 {
    } else if k == 130 {
    } else if k == 131 {
    } else if k == 132 {
    } else if k == 133 {
    } else if k == 134 {
    } else if k == 135 {
    } else if k == 136 {
    } else if k == 137 {
    } else if k == 138 {
    } else if k == 139 {
    } else if k == 140 {
    } else if k == 141 {
    } else if k == 142 {
    } else if k == 143 {
    } else if k == 144 {
    } else if k == 145 {
    } else if k == 146 {
    } else if k == 147 {
    } else if k == 148 {
    } else if k == 149 {
    } else if k == 150 {
    } else if k == 151 {
    } else if k == 152 {
    } else if k == 153 {
    } else if k == 154 {
    } else if k == 155 {
    } else if k == 156 {
    } else if k == 157 {
    } else if k == 158 {
    } else if k == 159 {
    } else if k == 160 {
    } else if k == 161 {
    } else if k == 162 {
    } else if k == 163 {
    } else if k == 164 {
    } else if k == 165 {
    } else if k == 166 {
    } else if k == 167 {
    } else if k == 168 {
    } else if k == 169 {
    } else if k == 170 {
    } else if k == 171 {
    } else if k == 172 {
    } else if k == 173 {
    } else if k == 174 {
    } else if k == 175 {
    } else if k == 176 {
    } else if k == 177 {
    } else if k == 178 {
    } else if k == 179 {
    } else if k == 180 {
    } else if k == 181 {
    } else if k == 182 {
    } else if k == 183 {
    } else if k == 184 {
    } else if k == 185 {
    } else if k == 186 {
    } else if k == 187 {
    } else if k == 188 {
    } else if k == 189 {
    } else if k == 190 {
    } else if k == 191 {
    } else if k == 192 {
    } else if k == 193 {
    } else if k == 194 {
    } else if k == 195 {
    } else if k == 196 {
    } else if k == 197 {
    } else if k == 198 {
    } else if k == 199 {
    } else if k == 200 {
    } else if k == 201 {
    } else if k == 202 {
    } else if k == 203 {
    } else if k == 204 {
    } else if k == 205 {
    } else if k == 206 {
    } else if k == 207 {
    } else if k == 208 {
    } else if k == 209 {
    } else if k == 210 {
    } else if k == 211 {
    } else if k == 212 {
    } else if k == 213 {
    } else if k == 214 {
    } else if k == 215 {
    } else if k == 216 {
    } else if k == 217 {
    } else if k == 218 {
    } else if k == 219 {
    } else if k == 220 {
    } else if k == 221 {
    } else if k == 222 {
    } else if k == 223 {
    } else if k == 224 {
    } else if k == 225 {
    } else if k == 226 {
    } else if k == 227 {
    } else if k == 228 {
    } else if k == 229 {
    } else if k == 230 {
    } else if k == 231 {
    } else if k == 232 {
    } else if k == 233 {
    } else if k == 234 {
    } else if k == 235 {
    } else if k == 236 {
    } else if k == 237 {
    } else if k == 238 {
    } else if k == 239 {
    } else if k == 240 {
    } else if k == 241 {
    } else if k == 242 {
    } else if k == 243 {
    } else if k == 244 {
    } else if k == 245 {
    } else if k == 246 {
    } else if k == 247 {
    } else if k == 248 {
    } else if k == 249 {
    } else if k == 250 {
    } else if k == 251 {
    } else if k == 252 {
    } else if k == 253 {
    } else {
    }
}

/// Every non-zero element is a power of 2 below 255.
proof fn lemma_exp_of_log_values(v: u8)
    requires
        v != 0,
    ensures
        LOG_VALUES[v as int] < 255,
        gf_exp(LOG_VALUES[v as int] as nat) == v,
{
    lemma_exp_values();
    if v == 1 {
    } else if v == 2 {
    } else if v == 3 {
    } else if v == 4 {
    } else if v == 5 {
    } else if v == 6 {
    } else if v == 7 {
    } else if v == 8 {
    } else if v == 9 {
    } else if v == 10 {
    } else if v == 11 {
    } else if v == 12 {
    } else if v == 13 {
    } else if v == 14 {
    } else if v == 15 {
    } else if v == 16 {
    } else if v == 17 {
    } else if v == 18 {
    } else if v == 19 {
    } else if v == 20 {
    } else if v == 21 {
    } else if v == 22 {
    } else if v == 23 {
    } else if v == 24 {
    } else if v == 25 {
    } else if v == 26 {
    } else if v == 27 {
    } else if v == 28 {
    } else if v == 29 {
    } else if v == 30 {
    } else if v == 31 {
    } else if v == 32 {
    } else if v == 33 {
    } else if v == 34 {
    } else if v == 35 {
    } else if v == 36 {
    } else if v == 37 {
    } else if v == 38 {
    } else if v == 39 {
    } else if v == 40 {
    } else if v == 41 {
    } else if v == 42 {
    } else if v == 43 {
    } else if v == 44 {
    } else if v == 45 {
    } else if v == 46 {
    } else if v == 47 {
    } else if v == 48 {
    } else if v == 49 {
    } else if v == 50 {
    } else if v == 51 {
    } else if v == 52 {
    } else if v == 53 {
    } else if v == 54 {
    } else if v == 55 {
    } else if v == 56 {
    } else if v == 57 {
    } else if v == 58 {
    } else if v == 59 {
    } else if v == 60 {
    } else if v == 61 {
    } else if v == 62 {
    } else if v == 63 {
    } else if v == 64 {
    } else if v == 65 {
    } else if v == 66 {
    } else if v == 67 {
    } else if v == 68 {
    } else if v == 69 {
    } else if v == 70 {
    } else if v == 71 {
    } else if v == 72 {
    } else if v == 73 {
    } else if v == 74 {
    } else if v == 75 {
    } else if v == 76 {
    } else if v == 77 {
    } else if v == 78 {
    } else if v == 79 {
    } else if v == 80 {
    } else if v == 81 {
    } else if v == 82 {
    } else if v == 83 {
    } else if v == 84 {
    } else if v == 85 {
    } else if v == 86 {
    } else if v == 87 {
    } else if v == 88 {
    } else if v == 89 {
    } else if v == 90 {
    } else if v == 91 {
    } else if v == 92 {
    } else if v == 93 {
    } else if v == 94 {
    } else if v == 95 {
    } else if v == 96 {
    } else if v == 97 {
    } else if v == 98 {
    } else if v == 99 {
    } else if v == 100 {
    } else if v == 101 {
    } else if v == 102 {
    } else if v == 103 {
    } else if v == 104 {
    } else if v == 105 {
    } else if v == 106 {
    } else if v == 107 {
    } else if v == 108 {
    } else if v == 109 {
    } else if v == 110 {
    } else if v == 111 {
    } else if v == 112 {
    } else if v == 113 {
    } else if v == 114 {
    } else if v == 115 {
    } else if v == 116 {
    } else if v == 117 {
    } else if v == 118 {
    } else if v == 119 {
    } else if v == 120 {
    } else if v == 121 {
    } else if v == 122 {
    } else if v == 123 {
    } else if v == 124 {
    } else if v == 125 {
    } else if v == 126 {
    } else if v == 127 {
    } else if v == 128 {
    } else if v == 129 {
    } else if v == 130 {
    } else if v == 131 {
    } else if v == 132 {
    } else if v == 133 {
    } else if v == 134 {
    } else if v == 135 {
    } else if v == 136 {
    } else if v == 137 {
    } else if v == 138 {
    } else if v == 139 {
    } else if v == 140 {
    } else if v == 141 {
    } else if v == 142 {
    } else if v == 143 {
    } else if v == 144 {
    } else if v == 145 {
    } else if v == 146 {
    } else if v == 147 {
    } else if v == 148 {
    } else if v == 149 {
    } else if v == 150 {
    } else if v == 151 {
    } else if v == 152 {
    } else if v == 153 {
    } else if v == 154 {
    } else if v == 155 {
    } else if v == 156 {
    } else if v == 157 {
    } else if v == 158 {
    } else if v == 159 {
    } else if v == 160 {
    } else if v == 161 {
    } else if v == 162 {
    } else if v == 163 {
    } else if v == 164 {
    } else if v == 165 {
    } else if v == 166 {
    } else if v == 167 {
    } else if v == 168 {
    } else if v == 169 {
    } else if v == 170 {
    } else if v == 171 {
    } else if v == 172 {
    } else if v == 173 {
    } else if v == 174 {
    } else if v == 175 {
    } else if v == 176 {
    } else if v == 177 {
    } else if v == 178 {
    } else if v == 179 {
    } else if v == 180 {
    } else if v == 181 {
    } else if v == 182 {
    } else if v == 183 {
    } else if v == 184 {
    } else if v == 185 {
    } else if v == 186 {
    } else if v == 187 {
    } else if v == 188 {
    } else if v == 189 {
    } else if v == 190 {
    } else if v == 191 {
    } else if v == 192 {
    } else if v == 193 {
    } else if v == 194 {
    } else if v == 195 {
    } else if v == 196 {
    } else if v == 197 {
    } else if v == 198 {
    } else if v == 199 {
    } else if v == 200 {
    } else if v == 201 {
    } else if v == 202 {
    } else if v == 203 {
    } else if v == 204 {
    } else if v == 205 {
    } else if v == 206 {
    } else if v == 207 {
    } else if v == 208 {
    } else if v == 209 {
    } else if v == 210 {
    } else if v == 211 {
    } else if v == 212 {
    } else if v == 213 {
    } else if v == 214 {
    } else if v == 215 {
    } else if v == 216 {
    } else if v == 217 {
    } else if v == 218 {
    } else if v == 219 {
    } else if v == 220 {
    } else if v == 221 {
    } else if v == 222 {
    } else if v == 223 {
    } else if v == 224 {
    } else if v == 225 {
    } else if v == 226 {
    } else if v == 227 {
    } else if v == 228 {
    } else if v == 229 {
    } else if v == 230 {
    } else if v == 231 {
    } else if v == 232 {
    } else if v == 233 {
    } else if v == 234 {
    } else if v == 235 {
    } else if v == 236 {
    } else if v == 237 {
    } else if v == 238 {
    } else if v == 239 {
    } else if v == 240 {
    } else if v == 241 {
    } else if v == 242 {
    } else if v == 243 {
    } else if v == 244 {
    } else if v == 245 {
    } else if v == 246 {
    } else if v == 247 {
    } else if v == 248 {
    } else if v == 249 {
    } else if v == 250 {
    } else if v == 251 {
    } else if v == 252 {
    } else if v == 253 {
    } else if v == 254 {
    } else {
    }
}

/// The powers of 2 below 255 are distinct.
pub proof fn lemma_exp_injective(i: nat, j: nat)
    requires
        i < 255,
        j < 255,
        gf_exp(i) == gf_exp(j),
    ensures
        i == j,
{
    lemma_log_values_of_exp(i);
    lemma_log_values_of_exp(j);
}

/// The last exponent below `n` at which the power is `2^i` is `i` itself.
proof fn lemma_last_exponent_of_exp(i: nat, n: nat)
    requires
        i < n <= 255,
    ensures
        last_exponent(gf_exp(i), n) == i,
    decreases n,
{
    if n > i + 1 {
        if gf_exp((n - 1) as nat) == gf_exp(i) {
            lemma_exp_injective((n - 1) as nat, i);
        }
        lemma_last_exponent_of_exp(i, (n - 1) as nat);
    }
}

/// The logarithm of `2^k` is `k`, for `k` below 255.
pub proof fn lemma_log_of_exp(k: nat)
    requires
        k < 255,
    ensures
        gf_log(gf_exp(k)) == k,
{
    lemma_last_exponent_of_exp(k, 255);
}

/// Every non-zero element is 2 to the power of its logarithm.
pub proof fn lemma_exp_of_log(v: u8)
    requires
        v != 0,
    ensures
        gf_log(v) < 255,
        gf_exp(gf_log(v)) == v,
{
    lemma_exp_of_log_values(v);
    lemma_log_of_exp(LOG_VALUES[v as int] as nat);
}

/// Multiplying by x commutes with field multiplication.
#[verifier::rlimit(100)]
proof fn lemma_product_xtime(a: u8, b: u8)
    by (bit_vector)
    ensures
        gf_product(a, xtime_spec(b)) == xtime_spec(gf_product(a, b)),
{
}

/// The products with 0, 1 and 2.
pub proof fn lemma_product_small(a: u8)
    by (bit_vector)
    ensures
        gf_product(a, 0) == 0,
        gf_product(0, a) == 0,
        gf_product(a, 1) == a,
        gf_product(a, 2) == xtime_spec(a),
{
}

/// `2^i * 2^j == 2^(i + j)`.
proof fn lemma_exp_add(i: nat, j: nat)
    ensures
        gf_product(gf_exp(i), gf_exp(j)) == gf_exp(i + j),
    decreases j,
{
    lemma_product_small(gf_exp(i));
    if j > 0 {
        lemma_exp_add(i, (j - 1) as nat);
        lemma_product_xtime(gf_exp(i), gf_exp((j - 1) as nat));
        assert(gf_exp(i + j) == xtime_spec(gf_exp((i + j - 1) as nat)));
    }
}

/// `2^(n + 255) == 2^n`.
proof fn lemma_exp_shift(n: nat)
    ensures
        gf_exp(n + 255) == gf_exp(n),
    decreases n,
{
    if n == 0 {
        lemma_exp_values();
    } else {
        lemma_exp_shift((n - 1) as nat);
        assert(gf_exp(n + 255) == xtime_spec(gf_exp((n + 254) as nat)));
    }
}

/// Multiplication through the logarithm tables.
pub open spec fn gf_table_mul(left: u8, right: u8) -> u8 {
    if left == 0 || right == 0 {
        0
    } else {
        gf_exp(((gf_log(left) + gf_log(right)) % 255) as nat)
    }
}

/// Multiplying through the logarithm tables is field multiplication.
pub proof fn lemma_table_mul_is_product(left: u8, right: u8)
    ensures
        gf_table_mul(left, right) == gf_product(left, right),
{
    lemma_product_small(left);
    lemma_product_small(right);
    if left != 0 && right != 0 {
        lemma_exp_of_log(left);
        lemma_exp_of_log(right);
        let sum = gf_log(left) + gf_log(right);
        lemma_exp_add(gf_log(left), gf_log(right));
        if sum >= 255 {
            lemma_exp_shift((sum - 255) as nat);
            assert(sum % 255 == sum - 255);
        } else {
            assert(sum % 255 == sum);
        }
    }
}

} // verus!
