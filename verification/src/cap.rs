//! The capability model and its derived input-selection queries.
//!
//! A parsed capability string yields a [`Capabilities`] value: the ordered
//! list of VCP control codes the display advertises, or nothing when the
//! string had no `vcp(...)` group.  On top of the model sit two read-only
//! queries: whether the display supports input selection at all, and which
//! named inputs its input-select code advertises.

use vstd::prelude::*;

verus! {

/// The VCP control code that selects the active video input.  The same wire
/// value must be used by whichever collaborator issues the get/set control
/// requests, so it is defined exactly once.
pub const INPUT_SELECT_CODE: u8 = 0x60;

/// One supported VCP control code: the code byte and the discrete value
/// bytes the display allows for it.  An empty value list means the display
/// declares the code as continuous rather than enumerated.
#[derive(Clone, Debug, PartialEq, Eq)]
pub struct VcpCode {
    pub code: u8,
    pub values: Vec<u8>,
}

/// Mathematical model of a [`VcpCode`].
pub struct VcpCodeView {
    pub code: u8,
    pub values: Seq<u8>,
}

impl View for VcpCode {
    type V = VcpCodeView;

    open spec fn view(&self) -> VcpCodeView {
        VcpCodeView { code: self.code, values: self.values@ }
    }
}

/// The models of a sequence of entries, element for element.
pub open spec fn codes_view(codes: Seq<VcpCode>) -> Seq<VcpCodeView> {
    codes.map_values(|c: VcpCode| c@)
}

/// The decoded capability model.  `vcp` is `None` when the source string had
/// no `vcp(...)` group, and otherwise holds the advertised codes in declared
/// order.  A value is produced once per parse and never mutated.
#[derive(Clone, Debug, PartialEq, Eq)]
pub struct Capabilities {
    pub vcp: Option<Vec<VcpCode>>,
}

/// Mathematical model of a [`Capabilities`].
pub struct CapabilitiesView {
    pub vcp: Option<Seq<VcpCodeView>>,
}

impl View for Capabilities {
    type V = CapabilitiesView;

    open spec fn view(&self) -> CapabilitiesView {
        CapabilitiesView {
            vcp: match self.vcp {
                Some(codes) => Some(codes_view(codes@)),
                None => None,
            },
        }
    }
}

/// A video input a display can be switched to.  The four named inputs map
/// one-to-one onto the known value bytes of the input-select VCP code.
#[derive(Clone, Copy, Debug, PartialEq, Eq, Structural)]
pub enum Input {
    DisplayPort1,
    DisplayPort2,
    Hdmi1,
    Hdmi2,
}

/// The input-select value byte that selects `input`.
pub open spec fn spec_input_byte(input: Input) -> u8 {
    match input {
        Input::DisplayPort1 => 0x0F,
        Input::DisplayPort2 => 0x10,
        Input::Hdmi1 => 0x11,
        Input::Hdmi2 => 0x12,
    }
}

/// The input selected by an input-select value byte, where one exists.  Any
/// other byte names no known input.
pub open spec fn spec_input_from_byte(value: u8) -> Option<Input> {
    if value == 0x0F {
        Some(Input::DisplayPort1)
    } else if value == 0x10 {
        Some(Input::DisplayPort2)
    } else if value == 0x11 {
        Some(Input::Hdmi1)
    } else if value == 0x12 {
        Some(Input::Hdmi2)
    } else {
        None
    }
}

/// The byte-to-input mapping inverts the input-to-byte mapping: the table is
/// bidirectional.
pub proof fn lemma_input_byte_roundtrip(input: Input)
    ensures
        spec_input_from_byte(spec_input_byte(input)) == Some(input),
{
}

impl Input {
    /// The wire value of this input on the control channel.
    pub fn to_byte(&self) -> (b: u8)
        ensures
            b == spec_input_byte(*self),
    {
        match self {
            Input::DisplayPort1 => 0x0F,
            Input::DisplayPort2 => 0x10,
            Input::Hdmi1 => 0x11,
            Input::Hdmi2 => 0x12,
        }
    }

    /// The input a wire value selects, or `None` for a byte that names no
    /// known input.
    pub fn from_byte(value: u8) -> (r: Option<Input>)
        ensures
            r == spec_input_from_byte(value),
    {
        if value == 0x0F {
            Some(Input::DisplayPort1)
        } else if value == 0x10 {
            Some(Input::DisplayPort2)
        } else if value == 0x11 {
            Some(Input::Hdmi1)
        } else if value == 0x12 {
            Some(Input::Hdmi2)
        } else {
            None
        }
    }

    /// A human-readable name for the input.
    pub fn label(&self) -> (r: &'static str)
        ensures
            *self == Input::DisplayPort1 ==> r@ == "DisplayPort 1"@,
            *self == Input::DisplayPort2 ==> r@ == "DisplayPort 2"@,
            *self == Input::Hdmi1 ==> r@ == "HDMI 1"@,
            *self == Input::Hdmi2 ==> r@ == "HDMI 2"@,
    {
        match self {
            Input::DisplayPort1 => "DisplayPort 1",
            Input::DisplayPort2 => "DisplayPort 2",
            Input::Hdmi1 => "HDMI 1",
            Input::Hdmi2 => "HDMI 2",
        }
    }
}

/// The index of the first entry at or after `i` whose code is `code`.
pub open spec fn find_code_from(codes: Seq<VcpCodeView>, code: u8, i: int) -> Option<int>
    decreases codes.len() - i,
        when 0 <= i <= codes.len()
{
    if i >= codes.len() {
        None
    } else if codes[i].code == code {
        Some(i)
    } else {
        find_code_from(codes, code, i + 1)
    }
}

pub proof fn lemma_find_code_from(codes: Seq<VcpCodeView>, code: u8, i: int)
    requires
        0 <= i <= codes.len(),
    ensures
        match find_code_from(codes, code, i) {
            Some(k) => i <= k < codes.len() && codes[k].code == code && forall|j: int|
                i <= j < k ==> (#[trigger] codes[j]).code != code,
            None => forall|j: int| i <= j < codes.len() ==> (#[trigger] codes[j]).code != code,
        },
    decreases codes.len() - i,
{
    if i < codes.len() && codes[i].code != code {
        lemma_find_code_from(codes, code, i + 1);
    }
}

/// Whether the model advertises the input-select code: true exactly when a
/// `vcp` group is present and one of its entries has that code.
pub open spec fn spec_has_input_select(c: CapabilitiesView) -> bool {
    match c.vcp {
        Some(codes) => find_code_from(codes, INPUT_SELECT_CODE, 0) is Some,
        None => false,
    }
}

/// The model advertises input selection exactly when its code list holds an
/// entry whose code is the input-select code; in particular a model without
/// a `vcp` group never does.
pub proof fn lemma_has_input_select_iff(c: CapabilitiesView)
    ensures
        spec_has_input_select(c) <==> (c.vcp matches Some(codes) && exists|k: int|
            0 <= k < codes.len() && (#[trigger] codes[k]).code == INPUT_SELECT_CODE),
        c.vcp is None ==> !spec_has_input_select(c),
{
    match c.vcp {
        Some(codes) => {
            lemma_find_code_from(codes, INPUT_SELECT_CODE, 0);
        },
        None => {},
    }
}

/// The inputs advertised by an input-select value list: each byte mapped to
/// its named input in declared order, bytes that name no input dropped.
pub open spec fn mapped_inputs(values: Seq<u8>) -> Seq<Input>
    decreases values.len(),
{
    if values.len() == 0 {
        Seq::empty()
    } else {
        mapped_inputs(values.drop_last()) + (match spec_input_from_byte(values.last()) {
            Some(input) => seq![input],
            None => Seq::empty(),
        })
    }
}

/// A byte that names no known input never appears, as any input's wire
/// value, in the derived input list - however often it stands in the
/// display's declared value list.
pub proof fn lemma_unmapped_byte_never_listed(values: Seq<u8>, v: u8, j: int)
    requires
        spec_input_from_byte(v) is None,
        0 <= j < mapped_inputs(values).len(),
    ensures
        spec_input_byte(mapped_inputs(values)[j]) != v,
    decreases values.len(),
{
    if values.len() > 0 {
        if j < mapped_inputs(values.drop_last()).len() {
            lemma_unmapped_byte_never_listed(values.drop_last(), v, j);
        } else {
            let input = mapped_inputs(values)[j];
            lemma_input_byte_roundtrip(input);
        }
    }
}

/// The derived input list of the model: `None` without a `vcp` group or
/// without an input-select entry; otherwise the mapped values of the first
/// input-select entry.
pub open spec fn spec_inputs(c: CapabilitiesView) -> Option<Seq<Input>> {
    match c.vcp {
        None => None,
        Some(codes) => match find_code_from(codes, INPUT_SELECT_CODE, 0) {
            None => None,
            Some(k) => Some(mapped_inputs(codes[k].values)),
        },
    }
}

impl Capabilities {
    /// Whether the display supports input selection: true exactly when the
    /// code list holds an entry with the input-select code, and in
    /// particular false when there is no `vcp` group at all.
    #[verifier::loop_isolation(false)]
    pub fn has_input_select(&self) -> (r: bool)
        ensures
            r == spec_has_input_select(self@),
    {
        match &self.vcp {
            None => false,
            Some(codes) => {
                let ghost cv = codes_view(codes@);
                let mut k: usize = 0;
                while k < codes.len()
                    invariant
                        k <= codes@.len(),
                        find_code_from(cv, INPUT_SELECT_CODE, 0) == find_code_from(
                            cv,
                            INPUT_SELECT_CODE,
                            k as int,
                        ),
                    decreases codes@.len() - k,
                {
                    if codes[k].code == INPUT_SELECT_CODE {
                        proof {
                            assert(cv[k as int].code == INPUT_SELECT_CODE);
                        }
                        return true;
                    }
                    proof {
                        assert(cv[k as int].code != INPUT_SELECT_CODE);
                    }
                    k = k + 1;
                }
                false
            },
        }
    }

    /// The inputs the display can be switched to, in the order it declares
    /// them: `None` when the model has no `vcp` group or no input-select
    /// entry, and otherwise the first input-select entry's value bytes
    /// mapped to named inputs, unknown bytes dropped.
    #[verifier::loop_isolation(false)]
    pub fn inputs(&self) -> (r: Option<Vec<Input>>)
        ensures
            match r {
                Some(list) => spec_inputs(self@) matches Some(inputs) && list@ == inputs,
                None => spec_inputs(self@) is None,
            },
    {
        let codes = match &self.vcp {
            None => {
                return None;
            },
            Some(codes) => codes,
        };
        let ghost cv = codes_view(codes@);

        let mut k: usize = 0;
        while k < codes.len()
            invariant
                k <= codes@.len(),
                cv == codes_view(codes@),
                find_code_from(cv, INPUT_SELECT_CODE, 0) == find_code_from(
                    cv,
                    INPUT_SELECT_CODE,
                    k as int,
                ),
            decreases codes@.len() - k,
        {
            if codes[k].code == INPUT_SELECT_CODE {
                proof {
                    assert(cv[k as int].code == INPUT_SELECT_CODE);
                }
                let values = &codes[k].values;
                let mut inputs: Vec<Input> = Vec::new();
                let mut vi: usize = 0;
                while vi < values.len()
                    invariant
                        vi <= values@.len(),
                        inputs@ == mapped_inputs(values@.take(vi as int)),
                    decreases values@.len() - vi,
                {
                    match Input::from_byte(values[vi]) {
                        Some(input) => inputs.push(input),
                        None => {},
                    }
                    vi = vi + 1;
                    proof {
                        assert(values@.take(vi as int).drop_last() =~= values@.take(
                            vi as int - 1,
                        ));
                    }
                }
                proof {
                    assert(values@.take(values@.len() as int) =~= values@);
                    assert(cv[k as int].values == values@);
                }
                return Some(inputs);
            }
            k = k + 1;
        }
        None
    }
}

} // verus!
