//! Static lookup between short codes and named equipment vendors, with an
//! "unknown code" fallback for each of the two code widths.

use vstd::prelude::*;

use crate::util::text::is_ascii_chars;

verus! {

/// Enumeration of the equipment vendors named by the format, with a
/// fallback variant for each unrecognised code width.
#[derive(Clone, Copy, Debug, PartialEq, Eq)]
pub enum Manufacturer<'a> {
    Aircotec,
    CambridgeAeroInstruments,
    ClearNavInstruments,
    DataSwan,
    EwAvionics,
    Filser,
    Flarm,
    Flytech,
    Garrecht,
    ImiGlidingEquipment,
    Logstream,
    LxNavigation,
    LxNav,
    Naviter,
    NewTechnologies,
    NielsenKellerman,
    Peschges,
    PressFinishElectronics,
    PrintTechnik,
    Scheffel,
    StreamlineDataInstruments,
    TriadisEngineering,
    Zander,
    UnknownSingle(u8),
    UnknownTriple(&'a str),
}

/// The mathematical value of a vendor: the unknown triple code is carried
/// as a character sequence.
pub ghost enum ManufacturerView {
    Aircotec,
    CambridgeAeroInstruments,
    ClearNavInstruments,
    DataSwan,
    EwAvionics,
    Filser,
    Flarm,
    Flytech,
    Garrecht,
    ImiGlidingEquipment,
    Logstream,
    LxNavigation,
    LxNav,
    Naviter,
    NewTechnologies,
    NielsenKellerman,
    Peschges,
    PressFinishElectronics,
    PrintTechnik,
    Scheffel,
    StreamlineDataInstruments,
    TriadisEngineering,
    Zander,
    UnknownSingle(u8),
    UnknownTriple(Seq<char>),
}

impl<'a> View for Manufacturer<'a> {
    type V = ManufacturerView;

    open spec fn view(&self) -> ManufacturerView {
        match self {
            Manufacturer::Aircotec => ManufacturerView::Aircotec,
            Manufacturer::CambridgeAeroInstruments => ManufacturerView::CambridgeAeroInstruments,
            Manufacturer::ClearNavInstruments => ManufacturerView::ClearNavInstruments,
            Manufacturer::DataSwan => ManufacturerView::DataSwan,
            Manufacturer::EwAvionics => ManufacturerView::EwAvionics,
            Manufacturer::Filser => ManufacturerView::Filser,
            Manufacturer::Flarm => ManufacturerView::Flarm,
            Manufacturer::Flytech => ManufacturerView::Flytech,
            Manufacturer::Garrecht => ManufacturerView::Garrecht,
            Manufacturer::ImiGlidingEquipment => ManufacturerView::ImiGlidingEquipment,
            Manufacturer::Logstream => ManufacturerView::Logstream,
            Manufacturer::LxNavigation => ManufacturerView::LxNavigation,
            Manufacturer::LxNav => ManufacturerView::LxNav,
            Manufacturer::Naviter => ManufacturerView::Naviter,
            Manufacturer::NewTechnologies => ManufacturerView::NewTechnologies,
            Manufacturer::NielsenKellerman => ManufacturerView::NielsenKellerman,
            Manufacturer::Peschges => ManufacturerView::Peschges,
            Manufacturer::PressFinishElectronics => ManufacturerView::PressFinishElectronics,
            Manufacturer::PrintTechnik => ManufacturerView::PrintTechnik,
            Manufacturer::Scheffel => ManufacturerView::Scheffel,
            Manufacturer::StreamlineDataInstruments => ManufacturerView::StreamlineDataInstruments,
            Manufacturer::TriadisEngineering => ManufacturerView::TriadisEngineering,
            Manufacturer::Zander => ManufacturerView::Zander,
            Manufacturer::UnknownSingle(b) => ManufacturerView::UnknownSingle(*b),
            Manufacturer::UnknownTriple(t) => ManufacturerView::UnknownTriple(t@),
        }
    }
}

/// Which vendor a single-character code names.
pub open spec fn spec_parse_single(character: u8) -> ManufacturerView {
    if character == 73 {  // 'I'
        ManufacturerView::Aircotec
    } else if character == 67 {  // 'C'
        ManufacturerView::CambridgeAeroInstruments
    } else if character == 68 {  // 'D'
        ManufacturerView::DataSwan
    } else if character == 69 {  // 'E'
        ManufacturerView::EwAvionics
    } else if character == 70 {  // 'F'
        ManufacturerView::Filser
    } else if character == 71 {  // 'G'
        ManufacturerView::Flarm
    } else if character == 65 {  // 'A'
        ManufacturerView::Garrecht
    } else if character == 77 {  // 'M'
        ManufacturerView::ImiGlidingEquipment
    } else if character == 76 {  // 'L'
        ManufacturerView::LxNavigation
    } else if character == 86 {  // 'V'
        ManufacturerView::LxNav
    } else if character == 78 {  // 'N'
        ManufacturerView::NewTechnologies
    } else if character == 75 {  // 'K'
        ManufacturerView::NielsenKellerman
    } else if character == 80 {  // 'P'
        ManufacturerView::Peschges
    } else if character == 82 {  // 'R'
        ManufacturerView::PrintTechnik
    } else if character == 72 {  // 'H'
        ManufacturerView::Scheffel
    } else if character == 83 {  // 'S'
        ManufacturerView::StreamlineDataInstruments
    } else if character == 84 {  // 'T'
        ManufacturerView::TriadisEngineering
    } else if character == 90 {  // 'Z'
        ManufacturerView::Zander
    } else {
        ManufacturerView::UnknownSingle(character)
    }
}

/// Which vendor a three-character code names.
pub open spec fn spec_parse_triple(s: Seq<char>) -> ManufacturerView {
    if s.len() != 3 {
        ManufacturerView::UnknownTriple(s)
    } else if s[0] == 'A' && s[1] == 'C' && s[2] == 'T' {
        ManufacturerView::Aircotec
    } else if s[0] == 'C' && s[1] == 'A' && s[2] == 'M' {
        ManufacturerView::CambridgeAeroInstruments
    } else if s[0] == 'C' && s[1] == 'N' && s[2] == 'I' {
        ManufacturerView::ClearNavInstruments
    } else if s[0] == 'D' && s[1] == 'S' && s[2] == 'X' {
        ManufacturerView::DataSwan
    } else if s[0] == 'E' && s[1] == 'W' && s[2] == 'A' {
        ManufacturerView::EwAvionics
    } else if s[0] == 'F' && s[1] == 'I' && s[2] == 'L' {
        ManufacturerView::Filser
    } else if s[0] == 'F' && s[1] == 'L' && s[2] == 'A' {
        ManufacturerView::Flarm
    } else if s[0] == 'F' && s[1] == 'L' && s[2] == 'Y' {
        ManufacturerView::Flytech
    } else if s[0] == 'G' && s[1] == 'C' && s[2] == 'S' {
        ManufacturerView::Garrecht
    } else if s[0] == 'I' && s[1] == 'M' && s[2] == 'I' {
        ManufacturerView::ImiGlidingEquipment
    } else if s[0] == 'L' && s[1] == 'G' && s[2] == 'S' {
        ManufacturerView::Logstream
    } else if s[0] == 'L' && s[1] == 'X' && s[2] == 'N' {
        ManufacturerView::LxNavigation
    } else if s[0] == 'L' && s[1] == 'X' && s[2] == 'V' {
        ManufacturerView::LxNav
    } else if s[0] == 'N' && s[1] == 'A' && s[2] == 'V' {
        ManufacturerView::Naviter
    } else if s[0] == 'N' && s[1] == 'T' && s[2] == 'E' {
        ManufacturerView::NewTechnologies
    } else if s[0] == 'N' && s[1] == 'K' && s[2] == 'L' {
        ManufacturerView::NielsenKellerman
    } else if s[0] == 'P' && s[1] == 'E' && s[2] == 'S' {
        ManufacturerView::Peschges
    } else if s[0] == 'P' && s[1] == 'F' && s[2] == 'E' {
        ManufacturerView::PressFinishElectronics
    } else if s[0] == 'P' && s[1] == 'R' && s[2] == 'T' {
        ManufacturerView::PrintTechnik
    } else if s[0] == 'S' && s[1] == 'C' && s[2] == 'H' {
        ManufacturerView::Scheffel
    } else if s[0] == 'S' && s[1] == 'D' && s[2] == 'I' {
        ManufacturerView::StreamlineDataInstruments
    } else if s[0] == 'T' && s[1] == 'R' && s[2] == 'I' {
        ManufacturerView::TriadisEngineering
    } else if s[0] == 'Z' && s[1] == 'A' && s[2] == 'N' {
        ManufacturerView::Zander
    } else {
        ManufacturerView::UnknownTriple(s)
    }
}

/// The single-character code of a vendor, where one exists.
pub open spec fn spec_to_single(m: ManufacturerView) -> Option<u8> {
    match m {
        ManufacturerView::Aircotec => Some(73),  // 'I'
        ManufacturerView::CambridgeAeroInstruments => Some(67),  // 'C'
        ManufacturerView::ClearNavInstruments => None,
        ManufacturerView::DataSwan => Some(68),  // 'D'
        ManufacturerView::EwAvionics => Some(69),  // 'E'
        ManufacturerView::Filser => Some(70),  // 'F'
        ManufacturerView::Flarm => Some(71),  // 'G'
        ManufacturerView::Flytech => None,
        ManufacturerView::Garrecht => Some(65),  // 'A'
        ManufacturerView::ImiGlidingEquipment => Some(77),  // 'M'
        ManufacturerView::Logstream => None,
        ManufacturerView::LxNavigation => Some(76),  // 'L'
        ManufacturerView::LxNav => Some(86),  // 'V'
        ManufacturerView::Naviter => None,
        ManufacturerView::NewTechnologies => Some(78),  // 'N'
        ManufacturerView::NielsenKellerman => Some(75),  // 'K'
        ManufacturerView::Peschges => Some(80),  // 'P'
        ManufacturerView::PressFinishElectronics => None,
        ManufacturerView::PrintTechnik => Some(82),  // 'R'
        ManufacturerView::Scheffel => Some(72),  // 'H'
        ManufacturerView::StreamlineDataInstruments => Some(83),  // 'S'
        ManufacturerView::TriadisEngineering => Some(84),  // 'T'
        ManufacturerView::Zander => Some(90),  // 'Z'
        ManufacturerView::UnknownSingle(b) => Some(b),
        ManufacturerView::UnknownTriple(_) => None,
    }
}

/// The three-character code of a vendor, where one exists.
pub open spec fn spec_to_triple(m: ManufacturerView) -> Option<Seq<char>> {
    match m {
        ManufacturerView::Aircotec => Some(seq!['A', 'C', 'T']),
        ManufacturerView::CambridgeAeroInstruments => Some(seq!['C', 'A', 'M']),
        ManufacturerView::ClearNavInstruments => Some(seq!['C', 'N', 'I']),
        ManufacturerView::DataSwan => Some(seq!['D', 'S', 'X']),
        ManufacturerView::EwAvionics => Some(seq!['E', 'W', 'A']),
        ManufacturerView::Filser => Some(seq!['F', 'I', 'L']),
        ManufacturerView::Flarm => Some(seq!['F', 'L', 'A']),
        ManufacturerView::Flytech => Some(seq!['F', 'L', 'Y']),
        ManufacturerView::Garrecht => Some(seq!['G', 'C', 'S']),
        ManufacturerView::ImiGlidingEquipment => Some(seq!['I', 'M', 'I']),
        ManufacturerView::Logstream => Some(seq!['L', 'G', 'S']),
        ManufacturerView::LxNavigation => Some(seq!['L', 'X', 'N']),
        ManufacturerView::LxNav => Some(seq!['L', 'X', 'V']),
        ManufacturerView::Naviter => Some(seq!['N', 'A', 'V']),
        ManufacturerView::NewTechnologies => Some(seq!['N', 'T', 'E']),
        ManufacturerView::NielsenKellerman => Some(seq!['N', 'K', 'L']),
        ManufacturerView::Peschges => Some(seq!['P', 'E', 'S']),
        ManufacturerView::PressFinishElectronics => Some(seq!['P', 'F', 'E']),
        ManufacturerView::PrintTechnik => Some(seq!['P', 'R', 'T']),
        ManufacturerView::Scheffel => Some(seq!['S', 'C', 'H']),
        ManufacturerView::StreamlineDataInstruments => Some(seq!['S', 'D', 'I']),
        ManufacturerView::TriadisEngineering => Some(seq!['T', 'R', 'I']),
        ManufacturerView::Zander => Some(seq!['Z', 'A', 'N']),
        ManufacturerView::UnknownSingle(_) => None,
        ManufacturerView::UnknownTriple(t) => Some(t),
    }
}

/// A vendor value that renders through its three-character code and decodes
/// back to itself: every named vendor, and an unknown triple whose code is
/// three ASCII characters that name no vendor.
pub open spec fn man_wf_triple(m: ManufacturerView) -> bool {
    match m {
        ManufacturerView::UnknownSingle(_) => false,
        ManufacturerView::UnknownTriple(t) => {
            &&& t.len() == 3
            &&& is_ascii_chars(t)
            &&& spec_parse_triple(t) == ManufacturerView::UnknownTriple(t)
        },
        _ => true,
    }
}

impl<'a> Manufacturer<'a> {
    pub fn parse_single_char(character: u8) -> (r: Self)
        ensures
            r@ == spec_parse_single(character),
    {
        match character {
            73 => Manufacturer::Aircotec,  // 'I'
            67 => Manufacturer::CambridgeAeroInstruments,  // 'C'
            68 => Manufacturer::DataSwan,  // 'D'
            69 => Manufacturer::EwAvionics,  // 'E'
            70 => Manufacturer::Filser,  // 'F'
            71 => Manufacturer::Flarm,  // 'G'
            65 => Manufacturer::Garrecht,  // 'A'
            77 => Manufacturer::ImiGlidingEquipment,  // 'M'
            76 => Manufacturer::LxNavigation,  // 'L'
            86 => Manufacturer::LxNav,  // 'V'
            78 => Manufacturer::NewTechnologies,  // 'N'
            75 => Manufacturer::NielsenKellerman,  // 'K'
            80 => Manufacturer::Peschges,  // 'P'
            82 => Manufacturer::PrintTechnik,  // 'R'
            72 => Manufacturer::Scheffel,  // 'H'
            83 => Manufacturer::StreamlineDataInstruments,  // 'S'
            84 => Manufacturer::TriadisEngineering,  // 'T'
            90 => Manufacturer::Zander,  // 'Z'
            unknown => Manufacturer::UnknownSingle(unknown),
        }
    }

    pub fn parse_triple_char(triple: &'a str) -> (r: Self)
        ensures
            r@ == spec_parse_triple(triple@),
    {
        if triple.unicode_len() != 3 {
            return Manufacturer::UnknownTriple(triple);
        }
        let c0 = triple.get_char(0);
        let c1 = triple.get_char(1);
        let c2 = triple.get_char(2);
        if c0 == 'A' && c1 == 'C' && c2 == 'T' {
            Manufacturer::Aircotec
        } else if c0 == 'C' && c1 == 'A' && c2 == 'M' {
            Manufacturer::CambridgeAeroInstruments
        } else if c0 == 'C' && c1 == 'N' && c2 == 'I' {
            Manufacturer::ClearNavInstruments
        } else if c0 == 'D' && c1 == 'S' && c2 == 'X' {
            Manufacturer::DataSwan
        } else if c0 == 'E' && c1 == 'W' && c2 == 'A' {
            Manufacturer::EwAvionics
        } else if c0 == 'F' && c1 == 'I' && c2 == 'L' {
            Manufacturer::Filser
        } else if c0 == 'F' && c1 == 'L' && c2 == 'A' {
            Manufacturer::Flarm
        } else if c0 == 'F' && c1 == 'L' && c2 == 'Y' {
            Manufacturer::Flytech
        } else if c0 == 'G' && c1 == 'C' && c2 == 'S' {
            Manufacturer::Garrecht
        } else if c0 == 'I' && c1 == 'M' && c2 == 'I' {
            Manufacturer::ImiGlidingEquipment
        } else if c0 == 'L' && c1 == 'G' && c2 == 'S' {
            Manufacturer::Logstream
        } else if c0 == 'L' && c1 == 'X' && c2 == 'N' {
            Manufacturer::LxNavigation
        } else if c0 == 'L' && c1 == 'X' && c2 == 'V' {
            Manufacturer::LxNav
        } else if c0 == 'N' && c1 == 'A' && c2 == 'V' {
            Manufacturer::Naviter
        } else if c0 == 'N' && c1 == 'T' && c2 == 'E' {
            Manufacturer::NewTechnologies
        } else if c0 == 'N' && c1 == 'K' && c2 == 'L' {
            Manufacturer::NielsenKellerman
        } else if c0 == 'P' && c1 == 'E' && c2 == 'S' {
            Manufacturer::Peschges
        } else if c0 == 'P' && c1 == 'F' && c2 == 'E' {
            Manufacturer::PressFinishElectronics
        } else if c0 == 'P' && c1 == 'R' && c2 == 'T' {
            Manufacturer::PrintTechnik
        } else if c0 == 'S' && c1 == 'C' && c2 == 'H' {
            Manufacturer::Scheffel
        } else if c0 == 'S' && c1 == 'D' && c2 == 'I' {
            Manufacturer::StreamlineDataInstruments
        } else if c0 == 'T' && c1 == 'R' && c2 == 'I' {
            Manufacturer::TriadisEngineering
        } else if c0 == 'Z' && c1 == 'A' && c2 == 'N' {
            Manufacturer::Zander
        } else {
            Manufacturer::UnknownTriple(triple)
        }
    }

    pub fn to_single_char(&self) -> (r: Option<u8>)
        ensures
            r == spec_to_single(self@),
    {
        match self {
            Manufacturer::Aircotec => Some(73),  // 'I'
            Manufacturer::CambridgeAeroInstruments => Some(67),  // 'C'
            Manufacturer::DataSwan => Some(68),  // 'D'
            Manufacturer::EwAvionics => Some(69),  // 'E'
            Manufacturer::Filser => Some(70),  // 'F'
            Manufacturer::Flarm => Some(71),  // 'G'
            Manufacturer::Garrecht => Some(65),  // 'A'
            Manufacturer::ImiGlidingEquipment => Some(77),  // 'M'
            Manufacturer::LxNavigation => Some(76),  // 'L'
            Manufacturer::LxNav => Some(86),  // 'V'
            Manufacturer::NewTechnologies => Some(78),  // 'N'
            Manufacturer::NielsenKellerman => Some(75),  // 'K'
            Manufacturer::Peschges => Some(80),  // 'P'
            Manufacturer::PrintTechnik => Some(82),  // 'R'
            Manufacturer::Scheffel => Some(72),  // 'H'
            Manufacturer::StreamlineDataInstruments => Some(83),  // 'S'
            Manufacturer::TriadisEngineering => Some(84),  // 'T'
            Manufacturer::Zander => Some(90),  // 'Z'
            Manufacturer::UnknownSingle(s) => Some(*s),
            _ => None,
        }
    }

    pub fn to_triple_char(&self) -> (r: Option<&'a str>)
        ensures
            match r {
                Some(t) => spec_to_triple(self@) == Some(t@),
                None => spec_to_triple(self@) is None,
            },
    {
        match self {
            Manufacturer::Aircotec => {
                proof {
                    reveal_strlit("ACT");
                    assert("ACT"@ =~= seq!['A', 'C', 'T']);
                }
                Some("ACT")
            },
            Manufacturer::CambridgeAeroInstruments => {
                proof {
                    reveal_strlit("CAM");
                    assert("CAM"@ =~= seq!['C', 'A', 'M']);
                }
                Some("CAM")
            },
            Manufacturer::ClearNavInstruments => {
                proof {
                    reveal_strlit("CNI");
                    assert("CNI"@ =~= seq!['C', 'N', 'I']);
                }
                Some("CNI")
            },
            Manufacturer::DataSwan => {
                proof {
                    reveal_strlit("DSX");
                    assert("DSX"@ =~= seq!['D', 'S', 'X']);
                }
                Some("DSX")
            },
            Manufacturer::EwAvionics => {
                proof {
                    reveal_strlit("EWA");
                    assert("EWA"@ =~= seq!['E', 'W', 'A']);
                }
                Some("EWA")
            },
            Manufacturer::Filser => {
                proof {
                    reveal_strlit("FIL");
                    assert("FIL"@ =~= seq!['F', 'I', 'L']);
                }
                Some("FIL")
            },
            Manufacturer::Flarm => {
                proof {
                    reveal_strlit("FLA");
                    assert("FLA"@ =~= seq!['F', 'L', 'A']);
                }
                Some("FLA")
            },
            Manufacturer::Flytech => {
                proof {
                    reveal_strlit("FLY");
                    assert("FLY"@ =~= seq!['F', 'L', 'Y']);
                }
                Some("FLY")
            },
            Manufacturer::Garrecht => {
                proof {
                    reveal_strlit("GCS");
                    assert("GCS"@ =~= seq!['G', 'C', 'S']);
                }
                Some("GCS")
            },
            Manufacturer::ImiGlidingEquipment => {
                proof {
                    reveal_strlit("IMI");
                    assert("IMI"@ =~= seq!['I', 'M', 'I']);
                }
                Some("IMI")
            },
            Manufacturer::Logstream => {
                proof {
                    reveal_strlit("LGS");
                    assert("LGS"@ =~= seq!['L', 'G', 'S']);
                }
                Some("LGS")
            },
            Manufacturer::LxNavigation => {
                proof {
                    reveal_strlit("LXN");
                    assert("LXN"@ =~= seq!['L', 'X', 'N']);
                }
                Some("LXN")
            },
            Manufacturer::LxNav => {
                proof {
                    reveal_strlit("LXV");
                    assert("LXV"@ =~= seq!['L', 'X', 'V']);
                }
                Some("LXV")
            },
            Manufacturer::Naviter => {
                proof {
                    reveal_strlit("NAV");
                    assert("NAV"@ =~= seq!['N', 'A', 'V']);
                }
                Some("NAV")
            },
            Manufacturer::NewTechnologies => {
                proof {
                    reveal_strlit("NTE");
                    assert("NTE"@ =~= seq!['N', 'T', 'E']);
                }
                Some("NTE")
            },
            Manufacturer::NielsenKellerman => {
                proof {
                    reveal_strlit("NKL");
                    assert("NKL"@ =~= seq!['N', 'K', 'L']);
                }
                Some("NKL")
            },
            Manufacturer::Peschges => {
                proof {
                    reveal_strlit("PES");
                    assert("PES"@ =~= seq!['P', 'E', 'S']);
                }
                Some("PES")
            },
            Manufacturer::PressFinishElectronics => {
                proof {
                    reveal_strlit("PFE");
                    assert("PFE"@ =~= seq!['P', 'F', 'E']);
                }
                Some("PFE")
            },
            Manufacturer::PrintTechnik => {
                proof {
                    reveal_strlit("PRT");
                    assert("PRT"@ =~= seq!['P', 'R', 'T']);
                }
                Some("PRT")
            },
            Manufacturer::Scheffel => {
                proof {
                    reveal_strlit("SCH");
                    assert("SCH"@ =~= seq!['S', 'C', 'H']);
                }
                Some("SCH")
            },
            Manufacturer::StreamlineDataInstruments => {
                proof {
                    reveal_strlit("SDI");
                    assert("SDI"@ =~= seq!['S', 'D', 'I']);
                }
                Some("SDI")
            },
            Manufacturer::TriadisEngineering => {
                proof {
                    reveal_strlit("TRI");
                    assert("TRI"@ =~= seq!['T', 'R', 'I']);
                }
                Some("TRI")
            },
            Manufacturer::Zander => {
                proof {
                    reveal_strlit("ZAN");
                    assert("ZAN"@ =~= seq!['Z', 'A', 'N']);
                }
                Some("ZAN")
            },
            Manufacturer::UnknownTriple(t) => Some(t),
            Manufacturer::UnknownSingle(_) => None,
        }
    }
}

/// Rendering a vendor through its three-character code and decoding that
/// code yields the vendor back.
pub proof fn lemma_manufacturer_round_trip(m: ManufacturerView)
    requires
        man_wf_triple(m),
    ensures
        spec_to_triple(m) is Some,
        spec_to_triple(m)->Some_0.len() == 3,
        is_ascii_chars(spec_to_triple(m)->Some_0),
        spec_parse_triple(spec_to_triple(m)->Some_0) == m,
{
    let t = spec_to_triple(m)->Some_0;
    assert forall|i: int| 0 <= i < t.len() implies '\0' <= #[trigger] t[i] <= '\u{7f}' by {
        if !(m is UnknownTriple) {
            assert(t[0] == t[0]);
        }
    }
}


/// Every named vendor carries a three-letter code, so it is free of
/// digits and decodes back to the vendor.
pub proof fn lemma_known_vendor_codes(m: ManufacturerView)
    requires
        !(m is UnknownSingle),
        !(m is UnknownTriple),
    ensures
        man_wf_triple(m),
        spec_to_triple(m) is Some,
        !crate::util::text::is_digit(spec_to_triple(m)->Some_0[0]),
        !crate::util::text::is_digit(spec_to_triple(m)->Some_0[1]),
        !crate::util::text::is_digit(spec_to_triple(m)->Some_0[2]),
{
}

/// A three-character code that names a vendor is that vendor's own code:
/// decoding and re-rendering a code gives the code back.
pub proof fn lemma_parse_triple_inverse(t: Seq<char>)
    requires
        !(spec_parse_triple(t) is UnknownTriple),
    ensures
        spec_to_triple(spec_parse_triple(t)) == Some(t),
{
    if t.len() == 3 && t[0] == 'A' && t[1] == 'C' && t[2] == 'T' {
        assert(t =~= seq!['A', 'C', 'T']);
    } else if t.len() == 3 && t[0] == 'C' && t[1] == 'A' && t[2] == 'M' {
        assert(t =~= seq!['C', 'A', 'M']);
    } else if t.len() == 3 && t[0] == 'C' && t[1] == 'N' && t[2] == 'I' {
        assert(t =~= seq!['C', 'N', 'I']);
    } else if t.len() == 3 && t[0] == 'D' && t[1] == 'S' && t[2] == 'X' {
        assert(t =~= seq!['D', 'S', 'X']);
    } else if t.len() == 3 && t[0] == 'E' && t[1] == 'W' && t[2] == 'A' {
        assert(t =~= seq!['E', 'W', 'A']);
    } else if t.len() == 3 && t[0] == 'F' && t[1] == 'I' && t[2] == 'L' {
        assert(t =~= seq!['F', 'I', 'L']);
    } else if t.len() == 3 && t[0] == 'F' && t[1] == 'L' && t[2] == 'A' {
        assert(t =~= seq!['F', 'L', 'A']);
    } else if t.len() == 3 && t[0] == 'F' && t[1] == 'L' && t[2] == 'Y' {
        assert(t =~= seq!['F', 'L', 'Y']);
    } else if t.len() == 3 && t[0] == 'G' && t[1] == 'C' && t[2] == 'S' {
        assert(t =~= seq!['G', 'C', 'S']);
    } else if t.len() == 3 && t[0] == 'I' && t[1] == 'M' && t[2] == 'I' {
        assert(t =~= seq!['I', 'M', 'I']);
    } else if t.len() == 3 && t[0] == 'L' && t[1] == 'G' && t[2] == 'S' {
        assert(t =~= seq!['L', 'G', 'S']);
    } else if t.len() == 3 && t[0] == 'L' && t[1] == 'X' && t[2] == 'N' {
        assert(t =~= seq!['L', 'X', 'N']);
    } else if t.len() == 3 && t[0] == 'L' && t[1] == 'X' && t[2] == 'V' {
        assert(t =~= seq!['L', 'X', 'V']);
    } else if t.len() == 3 && t[0] == 'N' && t[1] == 'A' && t[2] == 'V' {
        assert(t =~= seq!['N', 'A', 'V']);
    } else if t.len() == 3 && t[0] == 'N' && t[1] == 'T' && t[2] == 'E' {
        assert(t =~= seq!['N', 'T', 'E']);
    } else if t.len() == 3 && t[0] == 'N' && t[1] == 'K' && t[2] == 'L' {
        assert(t =~= seq!['N', 'K', 'L']);
    } else if t.len() == 3 && t[0] == 'P' && t[1] == 'E' && t[2] == 'S' {
        assert(t =~= seq!['P', 'E', 'S']);
    } else if t.len() == 3 && t[0] == 'P' && t[1] == 'F' && t[2] == 'E' {
        assert(t =~= seq!['P', 'F', 'E']);
    } else if t.len() == 3 && t[0] == 'P' && t[1] == 'R' && t[2] == 'T' {
        assert(t =~= seq!['P', 'R', 'T']);
    } else if t.len() == 3 && t[0] == 'S' && t[1] == 'C' && t[2] == 'H' {
        assert(t =~= seq!['S', 'C', 'H']);
    } else if t.len() == 3 && t[0] == 'S' && t[1] == 'D' && t[2] == 'I' {
        assert(t =~= seq!['S', 'D', 'I']);
    } else if t.len() == 3 && t[0] == 'T' && t[1] == 'R' && t[2] == 'I' {
        assert(t =~= seq!['T', 'R', 'I']);
    } else if t.len() == 3 && t[0] == 'Z' && t[1] == 'A' && t[2] == 'N' {
        assert(t =~= seq!['Z', 'A', 'N']);
    }
}

} // verus!
