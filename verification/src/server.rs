//! The decisions of the example server: orders, prices, mails and chat.

use vstd::prelude::*;
use vstd::string::StringExecFns;

use crate::llm;
use crate::llm::{Field, FieldValue, FieldView};
use crate::text;

verus! {

/// The lowest price.
pub const BASE_PRICE: u16 = 100;

/// The price for a sample.
pub fn price(sample: u8) -> (p: u16)
    ensures
        p == BASE_PRICE + sample,
{
    BASE_PRICE + (sample as u16)
}

/// The text of a price event.
pub open spec fn price_text(sample: u8) -> Seq<char> {
    "Price: $"@ + text::decimal((BASE_PRICE + sample) as nat)
}

/// The text of the price event for a sample.
pub fn price_event(sample: u8) -> (data: String)
    ensures
        data@ == price_text(sample),
{
    String::from("Price: $").concat(text::to_decimal(price(sample)).as_str())
}

/// `rand::random`: a byte by chance. Nothing is stated of it: any byte can come.
#[verifier::external_body]
fn random_byte() -> (sample: u8) {
    rand::random::<u8>()
}

/// The text of the next price event: that of some sample.
pub fn next_price_event() -> (data: String)
    ensures
        exists|sample: u8| data@ == #[trigger] price_text(sample),
{
    price_event(random_byte())
}

/// The fields of the reply to an order.
pub open spec fn order_status(declined: bool) -> Seq<(Seq<char>, FieldView)> {
    seq![
        (
            "status"@,
            FieldView::Text(
                if declined {
                    "failed"@
                } else {
                    "created"@
                },
            ),
        ),
    ]
}

/// A step of placing an order. Its outcome changes neither the reply nor the
/// steps after it.
#[derive(Debug, Clone, Copy, PartialEq, Eq)]
pub enum OrderStep {
    /// Start a mail to the user, and go on without waiting for it.
    StartMail,
    /// Run the payment to its end.
    RunPayment,
}

/// The steps of placing an order: the mail is started once whatever happens, and
/// the payment is run exactly when the order is declined.
pub open spec fn order_steps(declined: bool) -> Seq<OrderStep> {
    if declined {
        seq![OrderStep::StartMail, OrderStep::RunPayment]
    } else {
        seq![OrderStep::StartMail]
    }
}

/// How an order is placed.
#[derive(Debug)]
pub struct OrderPlan {
    /// What to do, in this order.
    pub steps: Vec<OrderStep>,
    /// The fields of the reply, once the steps are taken.
    pub reply: Vec<Field>,
}

/// How an order that is declined or not is placed.
pub fn plan_order(declined: bool) -> (plan: OrderPlan)
    ensures
        plan.steps@ == order_steps(declined),
        llm::fields_view(plan.reply@) == order_status(declined),
{
    let mut steps: Vec<OrderStep> = vec![OrderStep::StartMail];
    if declined {
        steps.push(OrderStep::RunPayment);
    }
    assert(steps@ =~= order_steps(declined));
    OrderPlan { steps, reply: order_reply(declined) }
}

/// The reply to an order whose payment was declined or not.
pub fn order_reply(declined: bool) -> (fields: Vec<Field>)
    ensures
        llm::fields_view(fields@) == order_status(declined),
{
    let status = if declined {
        "failed"
    } else {
        "created"
    };
    let fields = vec![Field { key: "status", value: FieldValue::Text(String::from(status)) }];
    assert(llm::fields_view(fields@) =~= order_status(declined));
    fields
}

/// The outcome of a mail that was refused or not.
pub fn email_outcome(refused: bool) -> (outcome: Result<(), &'static str>)
    ensures
        outcome is Err <==> refused,
        outcome is Err ==> outcome->Err_0@ == "SMTP Fail"@,
{
    if refused {
        Err("SMTP Fail")
    } else {
        Ok(())
    }
}

/// The outcome of a payment: the gateway declines every one.
pub fn payment_outcome() -> (outcome: Result<(), &'static str>)
    ensures
        outcome is Err,
        outcome->Err_0@ == "Gateway Fail"@,
{
    Err("Gateway Fail")
}

/// What a chat socket hands over.
#[derive(Debug)]
pub enum Received {
    /// A text message.
    Text(String),
    /// A message of another kind.
    Other,
    /// No message: the socket is closed or broken.
    Closed,
}

/// What to do about it.
#[derive(Debug)]
pub enum ChatAction {
    /// Send this text and go on.
    Send(String),
    /// Go on.
    Skip,
    /// End the session.
    Stop,
}

/// Text is sent back as it came, other messages are passed over, and the
/// session ends with the socket.
pub fn chat_step(received: Received) -> (action: ChatAction)
    ensures
        match received {
            Received::Text(t) => action == ChatAction::Send(t),
            Received::Other => action is Skip,
            Received::Closed => action is Stop,
        },
{
    match received {
        Received::Text(t) => ChatAction::Send(t),
        Received::Other => ChatAction::Skip,
        Received::Closed => ChatAction::Stop,
    }
}

/// Prices go up one by one with the sample, from a hundred on.
pub proof fn law_prices_follow_samples(sample: u8, p: u16)
    requires
        call_ensures(price, (sample,), p),
    ensures
        p == 100 + sample,
{
}

/// Whether a text is a price event for some price: the fixed words, and then the
/// price in decimal.
pub open spec fn tells_price(data: Seq<char>, p: int) -> bool {
    exists|digits: Seq<char>|
        data == #[trigger] ("Price: $"@ + digits) && text::writes_number(digits, p)
}

proof fn lemma_tells_price(sample: u8)
    ensures
        tells_price(price_text(sample), 100 + sample),
{
    text::law_decimals_read_back((100 + sample) as nat);
    let digits = text::decimal((BASE_PRICE + sample) as nat);
    assert(price_text(sample) == "Price: $"@ + digits);
}

/// The event of a sample tells the price of the sample, in decimal.
pub proof fn law_price_events_tell_prices(sample: u8, p: u16, data: String)
    requires
        call_ensures(price, (sample,), p),
        call_ensures(price_event, (sample,), data),
    ensures
        tells_price(data@, p as int),
        p == 100 + sample,
{
    lemma_tells_price(sample);
}

/// The next event tells a price from a hundred to three hundred and fifty-five.
pub proof fn law_next_prices_are_in_range(data: String)
    requires
        call_ensures(next_price_event, (), data),
    ensures
        exists|p: int| #[trigger] tells_price(data@, p) && 100 <= p <= 355,
{
    let sample = choose|sample: u8| data@ == #[trigger] price_text(sample);
    lemma_tells_price(sample);
    assert(tells_price(data@, 100 + sample));
}

/// The reply to an order is its status, which tells whether it was declined.
pub proof fn law_order_replies_tell_the_status(declined: bool, fields: Vec<Field>)
    requires
        call_ensures(order_reply, (declined,), fields),
    ensures
        fields@.len() == 1,
        fields@[0].key@ == "status"@,
        fields@[0].value matches FieldValue::Text(t) && {
            &&& declined ==> t@ == "failed"@
            &&& !declined ==> t@ == "created"@
        },
{
    assert(llm::fields_view(fields@).len() == fields@.len());
    assert(llm::fields_view(fields@)[0] == fields@[0]@);
}

/// To place an order starts one mail, first of all and whatever happens, and runs
/// the payment once after it if the order is declined and never otherwise. The
/// reply is the one that the order has without any of it.
pub proof fn law_orders_start_mail_and_run_payments(
    declined: bool,
    plan: OrderPlan,
    fields: Vec<Field>,
)
    requires
        call_ensures(plan_order, (declined,), plan),
        call_ensures(order_reply, (declined,), fields),
    ensures
        plan.steps@.len() > 0,
        plan.steps@[0] == OrderStep::StartMail,
        forall|i: int|
            0 < i < plan.steps@.len() ==> #[trigger] plan.steps@[i] == OrderStep::RunPayment,
        plan.steps@.len() == 2 <==> declined,
        plan.steps@.len() == 1 <==> !declined,
        llm::fields_view(plan.reply@) == llm::fields_view(fields@),
{
}

/// A mail fails exactly where it is refused, and says so.
pub proof fn law_refused_mails_fail(refused: bool, outcome: Result<(), &'static str>)
    requires
        call_ensures(email_outcome, (refused,), outcome),
    ensures
        refused ==> outcome is Err && outcome->Err_0@ == "SMTP Fail"@,
        !refused ==> outcome is Ok,
{
}

/// A payment always fails, and says so.
pub proof fn law_payments_fail(outcome: Result<(), &'static str>)
    requires
        call_ensures(payment_outcome, (), outcome),
    ensures
        outcome is Err,
        outcome->Err_0@ == "Gateway Fail"@,
{
}

/// A chat sends every text back as it came, does nothing about any other message,
/// and stops with its socket and for nothing else.
pub proof fn law_chats_echo_text(received: Received, action: ChatAction)
    requires
        call_ensures(chat_step, (received,), action),
    ensures
        received matches Received::Text(t) ==> action == ChatAction::Send(t),
        action is Send <==> received is Text,
        action is Skip <==> received is Other,
        action is Stop <==> received is Closed,
{
}

} // verus!
