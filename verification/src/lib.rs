//! Taiwanese listed companies and industry news: the stock list of the
//! exchange, company look-ups, batches for manual look-up, the enriched stock
//! list, and the IEK news crawler, with their logic verified.
pub mod batch;
pub mod business;
pub mod clock;
pub mod codec;
pub mod company_db;
pub mod company_info;
pub mod company_web;
pub mod enricher;
pub mod html;
pub mod json;
pub mod news;
pub mod news_report;
pub mod order;
pub mod pattern;
pub mod stock_list;
pub mod stock_report;
pub mod tally;
pub mod text;
pub mod yfinance;
