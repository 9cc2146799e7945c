use payments_ledger::amount::Amount;
use payments_ledger::ledger::Ledger;
use payments_ledger::record::{record_to_transaction, Record, RecordType};
use rust_decimal::Decimal;
use std::str::FromStr;

fn record_type(name: &str) -> Option<RecordType> {
    match name {
        "deposit" => Some(RecordType::Deposit),
        "withdrawal" => Some(RecordType::Withdrawal),
        "dispute" => Some(RecordType::Dispute),
        "resolve" => Some(RecordType::Resolve),
        "chargeback" => Some(RecordType::Chargeback),
        _ => None,
    }
}

fn amount(text: &str) -> Option<Option<Amount>> {
    if text.is_empty() {
        return Some(None);
    }
    let decimal = Decimal::from_str(text).ok()?;
    Some(Some(Amount::new(decimal.mantissa(), decimal.scale())?))
}

/// Reads the records the way the command line program does and applies those
/// that are complete.
fn ledger_from_csv(input: &str) -> Ledger {
    let mut reader = csv::ReaderBuilder::new()
        .flexible(true)
        .has_headers(true)
        .trim(csv::Trim::All)
        .from_reader(input.as_bytes());
    let headers = reader.headers().expect("a header row").clone();
    let column = |name: &str| headers.iter().position(|h| h == name);
    let (kind, client, tx, sum) = (column("type"), column("client"), column("tx"), column("amount"));

    let mut ledger = Ledger::default();
    for line in reader.records() {
        let Ok(line) = line else { continue };
        let field = |at: Option<usize>| at.and_then(|at| line.get(at)).unwrap_or("");
        let Some(record_type) = record_type(field(kind)) else { continue };
        let Ok(client) = field(client).parse::<u16>() else { continue };
        let Ok(tx) = field(tx).parse::<u32>() else { continue };
        let Some(amount) = amount(field(sum)) else { continue };
        let record = Record { record_type, client, tx, amount };
        if let Ok((account, transaction)) = record_to_transaction(&record) {
            ledger.checked_apply_for_account(account, transaction).expect("no overflow");
        }
    }
    ledger
}

fn text(amount: Amount) -> String {
    Decimal::from_i128_with_scale(amount.mantissa(), amount.scale()).to_string()
}

fn accounts_to_csv(ledger: &Ledger) -> String {
    let mut writer = csv::WriterBuilder::new().from_writer(vec![]);
    writer.write_record(["client", "available", "held", "total", "locked"]).unwrap();
    for row in ledger.summaries() {
        writer
            .write_record([
                row.client.to_string(),
                text(row.available),
                text(row.held),
                text(row.total),
                row.locked.to_string(),
            ])
            .unwrap();
    }
    String::from_utf8(writer.into_inner().unwrap()).expect("output should be UTF8")
}

#[test]
fn header_ordering_is_permissive() {
    let input = "\
client,amount,type,tx
5,10,deposit,1
";

    let ledger = ledger_from_csv(input);
    assert_eq!(ledger.summaries().len(), 1);
    assert!(ledger.account(5).is_some());
}

#[test]
fn bad_records_are_ignored() {
    let input = "\
type,client,tx,amount
deposit,1,1,10
foo,1,2,10
withdraw,1,3,
dispute,1,,
";

    let ledger = ledger_from_csv(input);
    assert_eq!(ledger.summaries().len(), 1);
    assert_eq!(ledger.account(1).map(|account| account.available()), Some(10.into()));
}

#[test]
fn csv_output() {
    let input = "\
type,client,tx,amount
deposit,1,1,10
withdrawal,1,2,4
dispute,1,2,
deposit,2,3,15
withdrawal,2,4,10
dispute,2,4,
chargeback,2,4,
";

    let ledger = ledger_from_csv(input);
    let output = accounts_to_csv(&ledger);
    assert_eq!(
        output,
        "\
client,available,held,total,locked
1,2.0000,4.0000,6.0000,false
2,-5.0000,0.0000,-5.0000,true
"
    );
}

#[test]
fn amounts_with_fractions_are_written_with_four_digits() {
    let input = "\
type, client, tx, amount
deposit, 7, 1, 1.23456
deposit, 7, 2, 0.00005
withdrawal, 7, 3, 0.2
deposit, 2, 4, 100
dispute, 7, 1,
";

    let ledger = ledger_from_csv(input);
    assert_eq!(
        accounts_to_csv(&ledger),
        "\
client,available,held,total,locked
2,100.0000,0.0000,100.0000,false
7,-0.2000,1.2346,1.0346,false
"
    );
}
